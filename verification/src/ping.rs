//! Which addresses to probe when measuring the latency of a server.
//!
//! The address that the server list gives for a server does not always answer
//! echo requests, so the prober also tries a few addresses inside the server's
//! own blocks (the comma separated CIDR ranges of [`crate::KnownServer::block`]).
//! Addresses are IPv4 addresses as 32-bit numbers, most significant octet first.

use vstd::prelude::*;
use crate::text::{str_trim, trim};

verus! {

// ------------------------------------------------------------------ trusted calls

/// Name for what `<ipnet::Ipv4Net as FromStr>::from_str` reads from a string:
/// the network's address and prefix length, or `None` for text that is no IPv4 network.
pub uninterp spec fn ipv4_net_parse(s: Seq<char>) -> Option<(u32, u8)>;

/// Parses `s` with `ipnet::Ipv4Net`'s `FromStr` and hands back the address
/// (`Ipv4Net::addr`) and the prefix length (`Ipv4Net::prefix_len`).
/// Trusted: the result is `ipv4_net_parse(s@)`, and a parsed prefix length is at
/// most 32 (`Ipv4Net::new` refuses longer ones). How the text is read is not stated.
#[verifier::external_body]
fn parse_ipv4_net(s: &str) -> (res: Option<(u32, u8)>)
    ensures
        res == ipv4_net_parse(s@),
        res matches Some(n) ==> n.1 <= 32,
{
    match s.parse::<ipnet::Ipv4Net>() {
        Ok(net) => Some((u32::from(net.addr()), net.prefix_len())),
        Err(_) => None,
    }
}

// ------------------------------------------------------------------ networks

/// At most this many addresses are tried inside a server's blocks.
pub const MAX_CANDIDATES: usize = 24;

/// Offsets from a network's first address that are tried: the first hosts, and the
/// first host of the next subnets in wide ranges.
pub open spec fn offsets() -> Seq<u32> {
    seq![1u32, 2u32, 10u32, 257u32, 65537u32]
}

/// The network mask of a prefix length (what `Ipv4Net::netmask` computes).
pub open spec fn netmask(prefix: u8) -> u32 {
    if prefix == 0 {
        0
    } else {
        (0xffff_ffffu32 << ((32 - prefix) as u32)) as u32
    }
}

/// The network address of `addr` under a prefix length (what `Ipv4Net::network` gives).
pub open spec fn network(addr: u32, prefix: u8) -> u32 {
    addr & netmask(prefix)
}

/// Number of addresses of a network, as the prober computes it: a `/0` range counts
/// as a single address (the shift wraps), so it yields no candidates.
pub open spec fn net_size(prefix: u8) -> u32 {
    if prefix == 0 {
        1
    } else {
        (1u32 << ((32 - prefix) as u32)) as u32
    }
}

/// The first `k` offsets that leave room before the network's last address.
pub open spec fn kept_offsets(size: u32, k: int) -> Seq<u32>
    decreases k,
{
    if k <= 0 {
        seq![]
    } else {
        let o = offsets()[k - 1];
        kept_offsets(size, k - 1) + (if o < size - 1 {
            seq![o]
        } else {
            seq![]
        })
    }
}

/// Addresses to try inside one network.
pub open spec fn net_candidates(net: (u32, u8)) -> Seq<u32> {
    kept_offsets(net_size(net.1), 5).map_values(|o: u32| (network(net.0, net.1) + o) as u32)
}

/// Addresses to try for one comma separated part of a block list.
pub open spec fn part_candidates(part: Seq<char>) -> Seq<u32> {
    match ipv4_net_parse(str_trim(part)) {
        Some(net) => if net.1 <= 32 {
            net_candidates(net)
        } else {
            seq![]
        },
        None => seq![],
    }
}

/// The parts of `s` between commas, as std's `str::split(',')` yields them.
pub open spec fn split_commas(s: Seq<char>) -> Seq<Seq<char>>
    decreases s.len(),
{
    if s.len() == 0 {
        seq![seq![]]
    } else {
        let prev = split_commas(s.drop_last());
        if s.last() == ',' {
            prev.push(seq![])
        } else {
            prev.update(prev.len() - 1, prev.last().push(s.last()))
        }
    }
}

/// Candidates of all parts, in order.
pub open spec fn parts_candidates(parts: Seq<Seq<char>>) -> Seq<u32>
    decreases parts.len(),
{
    if parts.len() == 0 {
        seq![]
    } else {
        parts_candidates(parts.drop_last()) + part_candidates(parts.last())
    }
}

/// The first `n` elements (all of them when there are fewer).
pub open spec fn first_n<A>(s: Seq<A>, n: nat) -> Seq<A> {
    if s.len() <= n {
        s
    } else {
        s.take(n as int)
    }
}

/// Addresses tried inside a server's block list.
pub open spec fn block_candidates(block: Seq<char>) -> Seq<u32> {
    first_n(parts_candidates(split_commas(block)), MAX_CANDIDATES as nat)
}

/// Every address to probe for a server, in order: the given address when it is an
/// IPv4 one, then the block candidates; the address already known to answer is left out.
pub open spec fn probe_order(api: Option<u32>, block: Seq<char>, known: Option<u32>) -> Seq<u32> {
    let first = match api {
        Some(a) => seq![a],
        None => seq![],
    };
    (first + block_candidates(block)).filter(other_than(known))
}

/// Keeps the addresses other than `known`.
pub open spec fn other_than(known: Option<u32>) -> spec_fn(u32) -> bool {
    |a: u32| Some(a) != known
}

pub(crate) proof fn lemma_network_room(addr: u32, shift: u32)
    requires
        shift < 32,
    ensures
        (addr & (0xffff_ffffu32 << shift)) as int + (1u32 << shift) as int <= 0x1_0000_0000,
        (1u32 << shift) >= 1,
{
    assert(((addr & (0xffff_ffffu32 << shift)) as u64) + ((1u32 << shift) as u64)
        <= 0x1_0000_0000u64) by (bit_vector)
        requires
            shift < 32,
    ;
    assert((1u32 << shift) >= 1) by (bit_vector)
        requires
            shift < 32,
    ;
}

proof fn lemma_first_n_append<A>(a: Seq<A>, b: Seq<A>, n: nat)
    ensures
        first_n(first_n(a, n) + b, n) == first_n(a + b, n),
{
    if a.len() > n {
        assert(first_n(a, n) + b =~= a.take(n as int) + b);
        assert((a.take(n as int) + b).take(n as int) =~= a.take(n as int));
        assert((a + b).take(n as int) =~= a.take(n as int));
    }
}

/// Appends `more` to `out`, keeping at most `cap` elements.
fn extend_capped(out: &mut Vec<u32>, more: &Vec<u32>, cap: usize)
    requires
        old(out)@.len() <= cap,
    ensures
        final(out)@ == first_n(old(out)@ + more@, cap as nat),
{
    let ghost start = out@;
    let mut j: usize = 0;
    while j < more.len()
        invariant
            j <= more.len(),
            start.len() <= cap,
            out@ == first_n(start + more@.take(j as int), cap as nat),
        decreases more.len() - j,
    {
        let ghost before = start + more@.take(j as int);
        assert(start + more@.take(j + 1) =~= before.push(more@[j as int]));
        if out.len() < cap {
            out.push(more[j]);
            assert(out@ =~= first_n(start + more@.take(j + 1), cap as nat));
        } else {
            assert(before.len() >= cap);
            assert(before.push(more@[j as int]).take(cap as int) =~= before.take(cap as int));
        }
        j = j + 1;
    }
    assert(more@.take(more@.len() as int) =~= more@);
}

/// The network address of `addr` under `prefix` (`Ipv4Net::network`).
fn network_address(addr: u32, prefix: u8) -> (r: u32)
    requires
        prefix <= 32,
    ensures
        r == network(addr, prefix),
{
    if prefix == 0 {
        assert(addr & 0u32 == 0u32) by (bit_vector);
        0
    } else {
        let shift: u32 = (32 - prefix) as u32;
        addr & (0xffff_ffffu32 << shift)
    }
}

/// Addresses to try inside the network `addr/prefix`.
pub fn net_candidate_addresses(addr: u32, prefix: u8) -> (r: Vec<u32>)
    requires
        prefix <= 32,
    ensures
        r@ == net_candidates((addr, prefix)),
{
    let base = network_address(addr, prefix);
    let size: u32 = if prefix == 0 {
        1
    } else {
        1u32 << (32 - prefix)
    };
    proof {
        if prefix > 0 {
            lemma_network_room(addr, (32 - prefix) as u32);
        }
    }
    let offs: [u32; 5] = [1, 2, 10, 257, 65537];
    assert(offs@ =~= offsets());
    let mut r: Vec<u32> = Vec::new();
    let mut k: usize = 0;
    while k < 5
        invariant
            k <= 5,
            offs@ == offsets(),
            size == net_size(prefix),
            size >= 1,
            base == network(addr, prefix),
            base as int + size as int <= 0x1_0000_0000,
            r@ == kept_offsets(size, k as int).map_values(|o: u32| (base + o) as u32),
        decreases 5 - k,
    {
        let o = offs[k];
        let ghost prev = kept_offsets(size, k as int);
        assert(kept_offsets(size, k + 1) == prev + (if o < size - 1 {
            seq![o]
        } else {
            seq![]
        }));
        if o < size - 1 {
            r.push(base + o);
            assert(r@ =~= kept_offsets(size, k + 1).map_values(|o: u32| (base + o) as u32));
        } else {
            assert(kept_offsets(size, k + 1) =~= prev);
        }
        k = k + 1;
    }
    r
}

proof fn lemma_split_step(s: Seq<char>, i: int)
    requires
        0 <= i < s.len(),
    ensures
        split_commas(s.take(i + 1)) == (if s[i] == ',' {
            split_commas(s.take(i)).push(seq![])
        } else {
            let prev = split_commas(s.take(i));
            prev.update(prev.len() - 1, prev.last().push(s[i]))
        }),
{
    assert(s.take(i + 1).drop_last() =~= s.take(i));
}

/// Candidates for one part of a block list, appended to `out` (capped).
fn add_part(out: &mut Vec<u32>, part: &str)
    requires
        old(out)@.len() <= MAX_CANDIDATES,
    ensures
        final(out)@ == first_n(old(out)@ + part_candidates(part@), MAX_CANDIDATES as nat),
{
    let trimmed = trim(part);
    match parse_ipv4_net(trimmed) {
        Some((addr, prefix)) => {
            let more = net_candidate_addresses(addr, prefix);
            extend_capped(out, &more, MAX_CANDIDATES);
        },
        None => {
            assert(old(out)@ + part_candidates(part@) =~= old(out)@);
        },
    }
}

/// Addresses inside the comma separated CIDR ranges of `block` to try when the
/// server's own address does not answer: for each range in order, its first hosts
/// and the first host of the next subnets, at most [`MAX_CANDIDATES`] in all.
/// Parts that are no IPv4 network are skipped.
pub fn candidates(block: &str) -> (r: Vec<u32>)
    ensures
        r@ == block_candidates(block@),
{
    let n = block.unicode_len();
    let mut out: Vec<u32> = Vec::new();
    let mut start: usize = 0;
    let mut i: usize = 0;
    let ghost mut done: Seq<Seq<char>> = seq![];
    assert(block@.take(0) =~= Seq::<char>::empty());
    assert(split_commas(block@.take(0)) =~= done.push(block@.subrange(0, 0)));
    while i < n
        invariant
            n == block@.len(),
            start <= i <= n,
            split_commas(block@.take(i as int)) == done.push(block@.subrange(start as int, i as int)),
            out@ == first_n(parts_candidates(done), MAX_CANDIDATES as nat),
            out@.len() <= MAX_CANDIDATES,
        decreases n - i,
    {
        let c = block.get_char(i);
        proof {
            lemma_split_step(block@, i as int);
        }
        if c == ',' {
            let part = block.substring_char(start, i);
            let ghost before = out@;
            add_part(&mut out, part);
            proof {
                let p = block@.subrange(start as int, i as int);
                lemma_first_n_append(parts_candidates(done), part_candidates(p), MAX_CANDIDATES as nat);
                assert(done.push(p).drop_last() =~= done);
                done = done.push(p);
                assert(block@.subrange(i + 1, i + 1) =~= Seq::<char>::empty());
            }
            start = i + 1;
        } else {
            proof {
                assert(block@.subrange(start as int, i + 1) =~= block@.subrange(start as int, i as int).push(c));
                assert(done.push(block@.subrange(start as int, i as int)).update(
                    done.len() as int,
                    block@.subrange(start as int, i + 1),
                ) =~= done.push(block@.subrange(start as int, i + 1)));
            }
        }
        i = i + 1;
    }
    let last = block.substring_char(start, n);
    add_part(&mut out, last);
    proof {
        let p = block@.subrange(start as int, n as int);
        lemma_first_n_append(parts_candidates(done), part_candidates(p), MAX_CANDIDATES as nat);
        assert(done.push(p).drop_last() =~= done);
        assert(block@.take(n as int) =~= block@);
    }
    out
}

/// Every address to probe for a server, in order: `api` (the address the server
/// list gives, when it is an IPv4 address), then the [`candidates`] of `block`,
/// leaving out `known`, the address that already answered earlier.
pub fn probe_targets(api: Option<u32>, block: &str, known: Option<u32>) -> (res: Vec<u32>)
    ensures
        res@ == probe_order(api, block@, known),
{
    let mut all: Vec<u32> = Vec::new();
    match api {
        Some(a) => all.push(a),
        None => {},
    }
    let cands = candidates(block);
    let mut k: usize = 0;
    let ghost first = all@;
    while k < cands.len()
        invariant
            k <= cands.len(),
            all@ == first + cands@.take(k as int),
        decreases cands.len() - k,
    {
        all.push(cands[k]);
        assert(first + cands@.take(k + 1) =~= all@);
        k = k + 1;
    }
    assert(cands@.take(cands@.len() as int) =~= cands@);
    let ghost full = all@;
    let ghost keep = other_than(known);
    assert(full == (match api {
        Some(a) => seq![a],
        None => seq![],
    }) + block_candidates(block@)) by {
        match api {
            Some(a) => assert(first =~= seq![a]),
            None => assert(first =~= Seq::<u32>::empty()),
        }
    }
    let mut out: Vec<u32> = Vec::new();
    let mut j: usize = 0;
    assert(full.take(0) =~= Seq::<u32>::empty());
    while j < all.len()
        invariant
            j <= all.len(),
            all@ == full,
            keep == other_than(known),
            out@ == full.take(j as int).filter(keep),
        decreases all.len() - j,
    {
        let a = all[j];
        proof {
            assert(full.take(j + 1) =~= full.take(j as int).push(a));
            full.take(j as int).lemma_filter_push(a, keep);
        }
        let skip = match known {
            Some(x) => x == a,
            None => false,
        };
        proof {
            match known {
                Some(x) => {
                    assert(skip == (x == a));
                    assert((Some(a) != Some(x)) == (a != x));
                },
                None => {},
            }
        }
        if !skip {
            out.push(a);
        }
        j = j + 1;
    }
    assert(full.take(full.len() as int) =~= full);
    out
}

} // verus!
