//! Measured latencies and what is decided from them.
//!
//! A latency is kept as the bit pattern of the measured `f32` millisecond value
//! (`f32::to_bits`). Comparisons go through integer keys that order the patterns as
//! the floats are ordered: [`total_key`] follows `f32::total_cmp`, and
//! [`float_lt`] is the float `<` (false on NaN, `-0.0` equal to `0.0`).

use vstd::prelude::*;
use crate::selection::KnownServer;

verus! {

/// Bit pattern of `f32::INFINITY`.
pub const INFINITY_BITS: u32 = 0x7f80_0000;

/// Bit pattern of `-0.0f32`, the sign bit alone.
pub const SIGN_BIT: u32 = 0x8000_0000;

/// Position of a float, given by its bit pattern, in the order of `f32::total_cmp`:
/// negative NaNs, negative infinity, negative numbers, `-0.0`, `0.0`, positive
/// numbers, infinity, positive NaNs.
pub open spec fn total_key(bits: u32) -> u32 {
    if bits < SIGN_BIT {
        (bits + SIGN_BIT) as u32
    } else {
        (0xffff_ffffu32 - bits) as u32
    }
}

/// The pattern is a NaN: exponent all ones and a non-zero fraction.
pub open spec fn is_nan_bits(bits: u32) -> bool {
    (if bits < SIGN_BIT {
        bits
    } else {
        (bits - SIGN_BIT) as u32
    }) > INFINITY_BITS
}

/// Position of a float in value order: [`total_key`], with `-0.0` placed on `0.0`.
pub open spec fn value_key(bits: u32) -> u32 {
    if bits == SIGN_BIT {
        total_key(0)
    } else {
        total_key(bits)
    }
}

/// The float `a < b`, on bit patterns: false when either is NaN.
pub open spec fn float_lt(a: u32, b: u32) -> bool {
    !is_nan_bits(a) && !is_nan_bits(b) && value_key(a) < value_key(b)
}

/// [`total_key`], computed.
pub fn total_key_of(bits: u32) -> (k: u32)
    ensures
        k == total_key(bits),
{
    if bits < SIGN_BIT {
        bits + SIGN_BIT
    } else {
        0xffff_ffffu32 - bits
    }
}

/// Whether the pattern is a NaN.
pub fn nan_bits(bits: u32) -> (r: bool)
    ensures
        r == is_nan_bits(bits),
{
    let magnitude = if bits < SIGN_BIT {
        bits
    } else {
        bits - SIGN_BIT
    };
    magnitude > INFINITY_BITS
}

/// The float comparison `a < b`, on bit patterns.
pub fn float_less(a: u32, b: u32) -> (r: bool)
    ensures
        r == float_lt(a, b),
{
    if nan_bits(a) || nan_bits(b) {
        return false;
    }
    let ka = if a == SIGN_BIT {
        total_key_of(0)
    } else {
        total_key_of(a)
    };
    let kb = if b == SIGN_BIT {
        total_key_of(0)
    } else {
        total_key_of(b)
    };
    ka < kb
}

/// Bit pattern of `1.0f32`.
pub const ONE_MS_BITS: u32 = 0x3f80_0000;

/// Bit pattern of `50.0f32`.
pub const FIFTY_MS_BITS: u32 = 0x4248_0000;

/// Bit pattern of `100.0f32`.
pub const HUNDRED_MS_BITS: u32 = 0x42c8_0000;

/// The outcome of one measurement: a latency, or why it failed.
pub type PingResult = Result<u32, String>;

/// View of a measurement outcome.
pub open spec fn result_view(r: PingResult) -> Result<u32, Seq<char>> {
    match r {
        Ok(v) => Ok(v),
        Err(m) => Err(m@),
    }
}

/// The latest outcome per address, of a list of (address, outcome) entries.
pub open spec fn entries_map(es: Seq<(String, PingResult)>) -> Map<Seq<char>, Result<u32, Seq<char>>>
    decreases es.len(),
{
    if es.len() == 0 {
        Map::empty()
    } else {
        entries_map(es.drop_last()).insert(es.last().0@, result_view(es.last().1))
    }
}

/// `k` is the last entry for `key`.
pub open spec fn last_entry(es: Seq<(String, PingResult)>, key: Seq<char>, k: int) -> bool {
    0 <= k < es.len() && es[k].0@ == key && forall|j: int| k < j < es.len() ==> es[j].0@ != key
}

proof fn lemma_entries_absent(es: Seq<(String, PingResult)>, key: Seq<char>)
    requires
        forall|j: int| 0 <= j < es.len() ==> es[j].0@ != key,
    ensures
        !entries_map(es).contains_key(key),
    decreases es.len(),
{
    if es.len() > 0 {
        lemma_entries_absent(es.drop_last(), key);
    }
}

proof fn lemma_entries_last(es: Seq<(String, PingResult)>, key: Seq<char>, k: int)
    requires
        last_entry(es, key, k),
    ensures
        entries_map(es).contains_key(key),
        entries_map(es)[key] == result_view(es[k].1),
    decreases es.len(),
{
    if k < es.len() - 1 {
        lemma_entries_last(es.drop_last(), key, k);
    }
}

proof fn lemma_entries_update(es: Seq<(String, PingResult)>, key: Seq<char>, k: int, e: (String, PingResult))
    requires
        last_entry(es, key, k),
        e.0@ == key,
    ensures
        entries_map(es.update(k, e)) == entries_map(es).insert(key, result_view(e.1)),
    decreases es.len(),
{
    let u = es.update(k, e);
    if k == es.len() - 1 {
        assert(u.drop_last() =~= es.drop_last());
        assert(entries_map(u) =~= entries_map(es).insert(key, result_view(e.1)));
    } else {
        assert(u.drop_last() =~= es.drop_last().update(k, e));
        lemma_entries_update(es.drop_last(), key, k, e);
        assert(entries_map(u) =~= entries_map(es).insert(key, result_view(e.1)));
    }
}

/// The latest measurement per ping address.
pub struct PingTable {
    entries: Vec<(String, PingResult)>,
}

impl View for PingTable {
    type V = Map<Seq<char>, Result<u32, Seq<char>>>;

    closed spec fn view(&self) -> Map<Seq<char>, Result<u32, Seq<char>>> {
        entries_map(self.entries@)
    }
}

/// The latency measured for `ip`, when the latest measurement succeeded.
pub open spec fn ok_latency(pings: Map<Seq<char>, Result<u32, Seq<char>>>, ip: Seq<char>) -> Option<u32> {
    if pings.contains_key(ip) {
        match pings[ip] {
            Ok(v) => Some(v),
            Err(_) => None,
        }
    } else {
        None
    }
}

impl PingTable {
    /// No measurements.
    pub fn new() -> (t: Self)
        ensures
            t@ == Map::<Seq<char>, Result<u32, Seq<char>>>::empty(),
    {
        PingTable { entries: Vec::new() }
    }

    /// Index of the last entry for `ip`.
    fn find(&self, ip: &String) -> (r: Option<usize>)
        ensures
            match r {
                Some(k) => last_entry(self.entries@, ip@, k as int),
                None => forall|j: int| 0 <= j < self.entries@.len() ==> self.entries@[j].0@ != ip@,
            },
    {
        let mut k: usize = self.entries.len();
        while k > 0
            invariant
                k <= self.entries.len(),
                forall|j: int| k <= j < self.entries@.len() ==> self.entries@[j].0@ != ip@,
            decreases k,
        {
            let i = k - 1;
            if self.entries[i].0 == *ip {
                return Some(i);
            }
            k = i;
        }
        None
    }

    /// The latest measurement for `ip`.
    pub fn get(&self, ip: &String) -> (r: Option<&PingResult>)
        ensures
            match r {
                Some(v) => self@.contains_key(ip@) && self@[ip@] == result_view(*v),
                None => !self@.contains_key(ip@),
            },
    {
        match self.find(ip) {
            Some(k) => {
                proof {
                    lemma_entries_last(self.entries@, ip@, k as int);
                }
                Some(&self.entries[k].1)
            },
            None => {
                proof {
                    lemma_entries_absent(self.entries@, ip@);
                }
                None
            },
        }
    }

    /// The latency of `ip`, when its latest measurement succeeded.
    pub fn latency(&self, ip: &String) -> (r: Option<u32>)
        ensures
            r == ok_latency(self@, ip@),
    {
        match self.get(ip) {
            Some(Ok(v)) => Some(*v),
            _ => None,
        }
    }

    /// Records the outcome of a measurement of `ip`, replacing the previous one.
    pub fn record(&mut self, ip: String, result: PingResult)
        ensures
            final(self)@ == old(self)@.insert(ip@, result_view(result)),
    {
        let ghost key = ip@;
        match self.find(&ip) {
            Some(k) => {
                proof {
                    lemma_entries_update(self.entries@, key, k as int, (ip, result));
                }
                self.entries.set(k, (ip, result));
            },
            None => {
                let ghost before = self.entries@;
                self.entries.push((ip, result));
                assert(self.entries@.drop_last() =~= before);
            },
        }
    }
}


/// A server the player can land on: not blocked, with a successful measurement
/// below infinity (as a float: no NaN).
pub open spec fn eligible(
    servers: Seq<KnownServer>,
    blocked: Set<u8>,
    pings: Map<Seq<char>, Result<u32, Seq<char>>>,
    i: int,
) -> bool {
    0 <= i < servers.len() && !blocked.contains(servers[i].bit) && match ok_latency(pings, servers[i].ping@) {
        Some(v) => float_lt(v, INFINITY_BITS),
        None => false,
    }
}

/// The measured latency of server `i` (meaningful for eligible servers).
pub open spec fn latency_at(
    servers: Seq<KnownServer>,
    pings: Map<Seq<char>, Result<u32, Seq<char>>>,
    i: int,
) -> u32 {
    ok_latency(pings, servers[i].ping@).unwrap()
}

/// `i` is the server the player most likely lands on: the first eligible server
/// with the lowest latency (compared as floats; `-0.0` and `0.0` are equal).
pub open spec fn is_best(
    servers: Seq<KnownServer>,
    blocked: Set<u8>,
    pings: Map<Seq<char>, Result<u32, Seq<char>>>,
    i: int,
) -> bool {
    &&& eligible(servers, blocked, pings, i)
    &&& forall|j: int| #[trigger] eligible(servers, blocked, pings, j) ==> value_key(latency_at(servers, pings, i)) <= value_key(latency_at(servers, pings, j))
    &&& forall|j: int| 0 <= j < i && #[trigger] eligible(servers, blocked, pings, j) ==> value_key(latency_at(servers, pings, i)) < value_key(latency_at(servers, pings, j))
}

/// Sort key of server `i` when ordering by latency: its latency, or infinity
/// without a successful measurement, in `f32::total_cmp`'s order.
pub open spec fn order_key(servers: Seq<KnownServer>, pings: Map<Seq<char>, Result<u32, Seq<char>>>, i: int) -> u32 {
    total_key(
        match ok_latency(pings, servers[i].ping@) {
            Some(v) => v,
            None => INFINITY_BITS,
        },
    )
}

/// Server `a` comes before server `b`: lower key, or the same key and listed first.
pub open spec fn ordered_before(servers: Seq<KnownServer>, pings: Map<Seq<char>, Result<u32, Seq<char>>>, a: int, b: int) -> bool {
    order_key(servers, pings, a) < order_key(servers, pings, b) || (order_key(servers, pings, a) == order_key(servers, pings, b) && a < b)
}

/// The largest latency among the first `n` servers, and at least one millisecond
/// (the scale of the latency bars): `f32::max` folded from `1.0`, which skips NaN.
pub open spec fn max_latency(servers: Seq<KnownServer>, pings: Map<Seq<char>, Result<u32, Seq<char>>>, n: int) -> u32
    decreases n,
{
    if n <= 0 {
        ONE_MS_BITS
    } else {
        let m = max_latency(servers, pings, n - 1);
        match ok_latency(pings, servers[n - 1].ping@) {
            Some(v) => if float_lt(m, v) {
                v
            } else {
                m
            },
            None => m,
        }
    }
}

/// Grade of a latency: 0 below 50 ms, 1 below 100 ms, 2 otherwise (NaN too).
pub open spec fn grade_of(ms: u32) -> u8 {
    if float_lt(ms, FIFTY_MS_BITS) {
        0
    } else if float_lt(ms, HUNDRED_MS_BITS) {
        1
    } else {
        2
    }
}

/// Grade of a latency (given as its bit pattern): 0 excellent (below 50 ms),
/// 1 fair (below 100 ms), 2 poor.
pub fn grade(ms: u32) -> (g: u8)
    ensures
        g == grade_of(ms),
{
    if float_less(ms, FIFTY_MS_BITS) {
        0
    } else if float_less(ms, HUNDRED_MS_BITS) {
        1
    } else {
        2
    }
}

/// The server the player most likely lands on: among the servers that are not in
/// `blocked` and have a successful measurement, the first with the lowest latency.
pub fn best_server_index(servers: &[KnownServer], blocked: &crate::selection::ServerSelection, pings: &PingTable) -> (r: Option<usize>)
    requires
        crate::selection::all_wf(servers@),
    ensures
        match r {
            Some(i) => is_best(servers@, blocked@, pings@, i as int),
            None => forall|j: int| !eligible(servers@, blocked@, pings@, j),
        },
{
    let mut best: Option<usize> = None;
    let mut lowest: u32 = INFINITY_BITS;
    let mut k: usize = 0;
    while k < servers.len()
        invariant
            k <= servers.len(),
            crate::selection::all_wf(servers@),
            match best {
                Some(b) => {
                    &&& b < k
                    &&& eligible(servers@, blocked@, pings@, b as int)
                    &&& lowest == latency_at(servers@, pings@, b as int)
                    &&& forall|j: int| 0 <= j < k && #[trigger] eligible(servers@, blocked@, pings@, j) ==> value_key(lowest) <= value_key(latency_at(servers@, pings@, j))
                    &&& forall|j: int| 0 <= j < b && #[trigger] eligible(servers@, blocked@, pings@, j) ==> value_key(lowest) < value_key(latency_at(servers@, pings@, j))
                },
                None => lowest == INFINITY_BITS && forall|j: int| 0 <= j < k ==> !eligible(servers@, blocked@, pings@, j),
            },
        decreases servers.len() - k,
    {
        let s = &servers[k];
        assert(s.wf());
        if !blocked.has(s) {
            match pings.latency(&s.ping) {
                Some(v) => {
                    if float_less(v, lowest) {
                        lowest = v;
                        best = Some(k);
                    }
                },
                None => {},
            }
        }
        k = k + 1;
    }
    proof {
        assert forall|j: int| !(0 <= j < servers@.len()) implies !eligible(servers@, blocked@, pings@, j) by {}
    }
    best
}

/// Sort key of a server when ordering by latency.
fn order_key_exec(servers: &[KnownServer], pings: &PingTable, i: usize) -> (k: u32)
    requires
        i < servers@.len(),
    ensures
        k == order_key(servers@, pings@, i as int),
{
    match pings.latency(&servers[i].ping) {
        Some(v) => total_key_of(v),
        None => total_key_of(INFINITY_BITS),
    }
}

/// Server indices ordered by latency in `f32::total_cmp`'s order, a server without
/// a successful measurement counting as infinity, servers of equal key in list
/// order (a stable sort).
pub fn order_by_latency(servers: &[KnownServer], pings: &PingTable) -> (r: Vec<usize>)
    ensures
        r@.len() == servers@.len(),
        forall|a: int| 0 <= a < r@.len() ==> r@[a] < servers@.len(),
        forall|a: int, b: int| 0 <= a < b < r@.len() ==> ordered_before(servers@, pings@, r@[a] as int, r@[b] as int),
{
    let mut r: Vec<usize> = Vec::new();
    let mut i: usize = 0;
    while i < servers.len()
        invariant
            i <= servers.len(),
            r@.len() == i,
            forall|a: int| 0 <= a < r@.len() ==> r@[a] < i,
            forall|a: int, b: int| 0 <= a < b < r@.len() ==> ordered_before(servers@, pings@, r@[a] as int, r@[b] as int),
        decreases servers.len() - i,
    {
        let key = order_key_exec(servers, pings, i);
        let mut p: usize = 0;
        while p < r.len() && order_key_exec(servers, pings, r[p]) <= key
            invariant
                p <= r@.len(),
                r@.len() == i,
                i < servers@.len(),
                key == order_key(servers@, pings@, i as int),
                forall|a: int| 0 <= a < r@.len() ==> r@[a] < i,
                forall|a: int| 0 <= a < p ==> order_key(servers@, pings@, r@[a] as int) <= key,
            decreases r@.len() - p,
        {
            p = p + 1;
        }
        let ghost before = r@;
        r.insert(p, i);
        proof {
            assert forall|a: int| 0 <= a < r@.len() implies r@[a] < i + 1 by {
                if a < p {
                    assert(r@[a] == before[a]);
                } else if a > p {
                    assert(r@[a] == before[a - 1]);
                }
            }
            if p < before.len() {
                assert(order_key(servers@, pings@, before[p as int] as int) > key);
            }
            assert forall|a: int, b: int| 0 <= a < b < r@.len() implies ordered_before(servers@, pings@, r@[a] as int, r@[b] as int) by {
                if b < p {
                    assert(r@[a] == before[a] && r@[b] == before[b]);
                } else if b == p {
                    assert(r@[a] == before[a]);
                } else if a == p {
                    assert(r@[b] == before[b - 1]);
                    assert(order_key(servers@, pings@, before[p as int] as int) > key);
                    if b - 1 > p {
                        assert(ordered_before(servers@, pings@, before[p as int] as int, before[b - 1] as int));
                    }
                } else if a < p {
                    assert(r@[a] == before[a] && r@[b] == before[b - 1]);
                } else {
                    assert(r@[a] == before[a - 1] && r@[b] == before[b - 1]);
                }
            }
        }
        i = i + 1;
    }
    r
}

/// The largest latency of the servers, at least one millisecond.
pub fn max_latency_of(servers: &[KnownServer], pings: &PingTable) -> (m: u32)
    ensures
        m == max_latency(servers@, pings@, servers@.len() as int),
{
    let mut m: u32 = ONE_MS_BITS;
    let mut k: usize = 0;
    while k < servers.len()
        invariant
            k <= servers.len(),
            m == max_latency(servers@, pings@, k as int),
        decreases servers.len() - k,
    {
        match pings.latency(&servers[k].ping) {
            Some(v) => {
                if float_less(m, v) {
                    m = v;
                }
            },
            None => {},
        }
        k = k + 1;
    }
    m
}

} // verus!
