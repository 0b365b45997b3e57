//! Properties that hold across the library's operations.

use vstd::prelude::*;
use crate::selection::{all_slots, all_wf, toggled, KnownServer};
use crate::state::{blocks_all, clicked_selection, in_selection, outside_selection, preset_set, FirewallAction, FirewallRequest, PresetOutcome, TemplateApp, ToggleOutcome};
use crate::pings::{eligible, is_best, latency_at, ok_latency, order_key, ordered_before, value_key};
use vstd::set_lib::{lemma_int_range, lemma_subset_equality, set_int_range};
use crate::ping::{block_candidates, first_n, ipv4_net_parse, kept_offsets, net_candidates, net_size, network, offsets, part_candidates, parts_candidates, probe_order, split_commas, other_than, MAX_CANDIDATES, lemma_network_room};
use crate::text::str_trim;
use crate::status::{candidate, status_shown, LogEntry, LogLevel, StatusKind};
use crate::geo::{flag_code, has_flag, name_flag, server_flag, NAME_ROWS, SERVER_ROWS};
use crate::flow::{page_after_back, page_after_next, tour_after, TourMove, LAST_WELCOME_PAGE, TOUR_LEN};

verus! {

/// No two listed servers share a slot.
pub open spec fn distinct_slots(servers: Seq<KnownServer>) -> bool {
    forall|i: int, j: int| 0 <= i < servers.len() && 0 <= j < servers.len() && i != j ==> servers[i].bit != servers[j].bit
}

/// Toggling the same server twice gives the selection back.
pub proof fn law_toggle_twice(v: Set<u8>, b: u8)
    ensures
        toggled(toggled(v, b), b) == v,
{
    assert(toggled(toggled(v, b), b) =~= v);
}

/// "Only this server" and "every server but this one" are complements.
pub proof fn law_solo_and_solo_invert_complement(b: u8)
    requires
        b < crate::selection::SLOTS,
    ensures
        all_slots().remove(b) == all_slots().difference(Set::empty().insert(b)),
        all_slots().remove(b).union(Set::empty().insert(b)) == all_slots(),
{
    assert(all_slots().remove(b) =~= all_slots().difference(Set::empty().insert(b)));
    assert(all_slots().remove(b).union(Set::empty().insert(b)) =~= all_slots());
}

proof fn lemma_filter_at_most_one(s: Seq<KnownServer>, p: spec_fn(KnownServer) -> bool, idx: int)
    requires
        0 <= idx < s.len(),
        forall|k: int| 0 <= k < s.len() && k != idx ==> !p(#[trigger] s[k]),
    ensures
        s.filter(p).len() <= 1,
    decreases s.len(),
{
    let d = s.drop_last();
    assert(s =~= d.push(s.last()));
    d.lemma_filter_push(s.last(), p);
    if idx == s.len() - 1 {
        if d.filter(p).len() > 0 {
            d.lemma_filter_contains_rev(p, d.filter(p)[0]);
            let k = choose|k: int| 0 <= k < d.len() && d[k] == d.filter(p)[0];
            d.lemma_filter_pred(p, 0);
            assert(s[k] == d[k]);
        }
    } else {
        assert forall|k: int| 0 <= k < d.len() && k != idx implies !p(#[trigger] d[k]) by {
            assert(d[k] == s[k]);
        }
        lemma_filter_at_most_one(d, p, idx);
    }
}

proof fn lemma_filter_has(s: Seq<KnownServer>, p: spec_fn(KnownServer) -> bool, idx: int)
    requires
        0 <= idx < s.len(),
        p(s[idx]),
    ensures
        s.filter(p).len() >= 1,
{
    s.lemma_filter_contains(p, idx);
}

/// A left click never blocks every server: when the click is accepted, some listed
/// server stays allowed (slots being distinct).
pub proof fn law_left_click_keeps_a_server(servers: Seq<KnownServer>, sel: Set<u8>, idx: int)
    requires
        all_wf(servers),
        distinct_slots(servers),
        0 <= idx < servers.len(),
        clicked_selection(servers, sel, idx, false) is Some,
    ensures
        exists|k: int| 0 <= k < servers.len() && !clicked_selection(servers, sel, idx, false)->0.contains(#[trigger] servers[k].bit),
{
    let s = servers[idx];
    let n = clicked_selection(servers, sel, idx, false)->0;
    if sel.contains(s.bit) {
        assert(!n.contains(servers[idx].bit));
    } else {
        let p = outside_selection(sel);
        lemma_filter_has(servers, p, idx);
        if forall|k: int| 0 <= k < servers.len() ==> n.contains(#[trigger] servers[k].bit) {
            assert forall|k: int| 0 <= k < servers.len() && k != idx implies !p(#[trigger] servers[k]) by {
                assert(n.contains(servers[k].bit));
                assert(servers[k].bit != s.bit);
            }
            lemma_filter_at_most_one(servers, p, idx);
            assert(false);
        }
    }
}

/// A right click never blocks every server of a list of two or more: it keeps the
/// clicked server, or blocks only it.
pub proof fn law_right_click_keeps_a_server(servers: Seq<KnownServer>, sel: Set<u8>, idx: int)
    requires
        all_wf(servers),
        distinct_slots(servers),
        servers.len() >= 2,
        0 <= idx < servers.len(),
    ensures
        clicked_selection(servers, sel, idx, true) is Some,
        exists|k: int| 0 <= k < servers.len() && !clicked_selection(servers, sel, idx, true)->0.contains(#[trigger] servers[k].bit),
{
    let n = clicked_selection(servers, sel, idx, true)->0;
    let other = if idx == 0 {
        1int
    } else {
        0int
    };
    if n.contains(servers[idx].bit) {
        assert(servers[other].bit != servers[idx].bit);
        assert(!n.contains(servers[other].bit));
    }
}

/// The latest measurement of an address is the one last recorded for it; recording
/// one address leaves the others as they were.
pub proof fn law_ping_read_after_write(
    pings: Map<Seq<char>, Result<u32, Seq<char>>>,
    ip: Seq<char>,
    v: u32,
    err: Seq<char>,
    other: Seq<char>,
)
    requires
        other != ip,
    ensures
        ok_latency(pings.insert(ip, Ok(v)), ip) == Some(v),
        ok_latency(pings.insert(ip, Err(err)), ip) is None,
        ok_latency(pings.insert(ip, Ok(v)), other) == ok_latency(pings, other),
{
}

proof fn lemma_kept_bounds(size: u32, k: int)
    requires
        0 <= k <= 5,
    ensures
        forall|i: int| 0 <= i < kept_offsets(size, k).len() ==> 1 <= #[trigger] kept_offsets(size, k)[i] && kept_offsets(size, k)[i] < size - 1,
    decreases k,
{
    if k > 0 {
        lemma_kept_bounds(size, k - 1);
        let prev = kept_offsets(size, k - 1);
        let o = offsets()[k - 1];
        assert(o >= 1) by {
            assert(offsets()[0] == 1 && offsets()[1] == 2 && offsets()[2] == 10 && offsets()[3] == 257 && offsets()[4] == 65537);
        }
        let cur = kept_offsets(size, k);
        assert forall|i: int| 0 <= i < cur.len() implies 1 <= #[trigger] cur[i] && cur[i] < size - 1 by {
            if i < prev.len() {
                assert(cur[i] == prev[i]);
            } else {
                assert(cur[i] == o);
            }
        }
    }
}

/// Every address tried inside a network lies strictly inside it: past the network
/// address and before its last address.
pub proof fn law_candidates_inside_network(net: (u32, u8))
    requires
        net.1 <= 32,
    ensures
        forall|i: int| 0 <= i < net_candidates(net).len() ==> network(net.0, net.1) < #[trigger] net_candidates(net)[i]
            && net_candidates(net)[i] < network(net.0, net.1) + net_size(net.1) - 1,
{
    let size = net_size(net.1);
    let base = network(net.0, net.1);
    lemma_kept_bounds(size, 5);
    if net.1 > 0 {
        lemma_network_room(net.0, (32 - net.1) as u32);
    }
    assert forall|i: int| 0 <= i < net_candidates(net).len() implies base < #[trigger] net_candidates(net)[i]
        && net_candidates(net)[i] < base + size - 1 by {
        let o = kept_offsets(size, 5)[i];
        if net.1 == 0 {
            assert(size == 1);
        }
        assert(base as int + o < 0x1_0000_0000);
    }
}

/// At most [`MAX_CANDIDATES`] addresses are tried inside a server's blocks.
pub proof fn law_candidates_capped(block: Seq<char>)
    ensures
        block_candidates(block).len() <= MAX_CANDIDATES,
{
}

/// The address already known to answer is never probed a second time.
pub proof fn law_probe_skips_known(api: Option<u32>, block: Seq<char>, known: u32)
    ensures
        forall|i: int| 0 <= i < probe_order(api, block, Some(known)).len() ==> #[trigger] probe_order(api, block, Some(known))[i] != known,
{
    let first = match api {
        Some(a) => seq![a],
        None => seq![],
    };
    let all = first + block_candidates(block);
    assert forall|i: int| 0 <= i < probe_order(api, block, Some(known)).len() implies #[trigger] probe_order(api, block, Some(known))[i] != known by {
        all.lemma_filter_pred(other_than(Some(known)), i);
    }
}

/// In the tour, going back and then forward returns to the same step; going forward
/// from the last step ends the tour.
pub proof fn law_tour_back_then_next(step: int)
    requires
        0 < step < TOUR_LEN,
    ensures
        tour_after(step, TourMove::Back) == Some(Some((step - 1) as usize)),
        tour_after(step - 1, TourMove::Next) == Some(Some(step as usize)),
        tour_after(TOUR_LEN - 1, TourMove::Next) == Some(None::<usize>),
        tour_after(step, TourMove::Skip) == Some(None::<usize>),
{
}

/// On the welcome pages, next and then back returns to the same page.
pub proof fn law_welcome_next_then_back(p: u8)
    requires
        p < LAST_WELCOME_PAGE,
    ensures
        page_after_back(page_after_next(Some(p))) == Some(p),
        page_after_next(Some(p)) == Some((p + 1) as u8),
{
}

/// Ordering the server list by latency shows every server exactly once.
pub proof fn law_order_lists_every_server_once(
    servers: Seq<KnownServer>,
    pings: Map<Seq<char>, Result<u32, Seq<char>>>,
    r: Seq<usize>,
)
    requires
        r.len() == servers.len(),
        forall|a: int| 0 <= a < r.len() ==> r[a] < servers.len(),
        forall|a: int, b: int| 0 <= a < b < r.len() ==> ordered_before(servers, pings, r[a] as int, r[b] as int),
    ensures
        forall|a: int, b: int| 0 <= a < r.len() && 0 <= b < r.len() && a != b ==> r[a] != r[b],
        forall|k: usize| k < servers.len() ==> #[trigger] r.contains(k),
{
    let n = servers.len() as int;
    let s = r.map_values(|x: usize| x as int);
    assert forall|a: int, b: int| 0 <= a < r.len() && 0 <= b < r.len() && a != b implies r[a] != r[b] by {
        if a < b {
            assert(ordered_before(servers, pings, r[a] as int, r[b] as int));
        } else {
            assert(ordered_before(servers, pings, r[b] as int, r[a] as int));
        }
    }
    assert(s.no_duplicates()) by {
        assert forall|a: int, b: int| 0 <= a < s.len() && 0 <= b < s.len() && a != b implies s[a] != s[b] by {
            assert(r[a] != r[b]);
        }
    }
    s.unique_seq_to_set();
    lemma_int_range(0, n);
    assert(s.to_set().subset_of(set_int_range(0, n))) by {
        assert forall|x: int| s.to_set().contains(x) implies set_int_range(0, n).contains(x) by {
            let a = choose|a: int| 0 <= a < s.len() && s[a] == x;
            assert(r[a] < n);
        }
    }
    vstd::seq_lib::seq_to_set_is_finite(s);
    lemma_subset_equality(s.to_set(), set_int_range(0, n));
    assert forall|k: usize| k < n implies #[trigger] r.contains(k) by {
        assert(set_int_range(0, n).contains(k as int));
        assert(s.to_set().contains(k as int));
        let a = choose|a: int| 0 <= a < s.len() && s[a] == k as int;
        assert(r[a] == k);
    }
}

proof fn lemma_parts_candidates_from(parts: Seq<Seq<char>>, i: int)
    requires
        0 <= i < parts_candidates(parts).len(),
    ensures
        exists|k: int, j: int| #![trigger part_candidates(parts[k])[j]] 0 <= k < parts.len() && 0 <= j < part_candidates(parts[k]).len()
            && part_candidates(parts[k])[j] == parts_candidates(parts)[i],
    decreases parts.len(),
{
    let d = parts.drop_last();
    let prev = parts_candidates(d);
    if i < prev.len() {
        lemma_parts_candidates_from(d, i);
        let (k, j) = choose|k: int, j: int| #![trigger part_candidates(d[k])[j]] 0 <= k < d.len() && 0 <= j < part_candidates(d[k]).len()
            && part_candidates(d[k])[j] == parts_candidates(d)[i];
        assert(d[k] == parts[k]);
        assert(parts_candidates(parts)[i] == prev[i]);
    } else {
        let k = parts.len() - 1;
        let j = i - prev.len();
        assert(parts_candidates(parts)[i] == part_candidates(parts[k])[j]);
    }
}

/// `c` lies strictly inside the network of one of the parts of `block`.
pub open spec fn inside_some_part(block: Seq<char>, c: u32) -> bool {
    exists|part: Seq<char>| #[trigger] split_commas(block).contains(part) && inside_part(part, c)
}

/// `c` lies strictly inside the network written in `part`.
pub open spec fn inside_part(part: Seq<char>, c: u32) -> bool {
    match ipv4_net_parse(str_trim(part)) {
        Some(net) => net.1 <= 32 && network(net.0, net.1) < c && c < network(net.0, net.1) + net_size(net.1) - 1,
        None => false,
    }
}

/// Every address tried inside a server's block list lies strictly inside one of the
/// networks written in it.
pub proof fn law_block_candidates_inside(block: Seq<char>)
    ensures
        forall|i: int| 0 <= i < block_candidates(block).len() ==> inside_some_part(block, #[trigger] block_candidates(block)[i]),
{
    let parts = split_commas(block);
    let all = parts_candidates(parts);
    assert forall|i: int| 0 <= i < block_candidates(block).len() implies inside_some_part(block, #[trigger] block_candidates(block)[i]) by {
        assert(block_candidates(block)[i] == all[i]);
        lemma_parts_candidates_from(parts, i);
        let (k, j) = choose|k: int, j: int| #![trigger part_candidates(parts[k])[j]] 0 <= k < parts.len() && 0 <= j < part_candidates(parts[k]).len()
            && part_candidates(parts[k])[j] == all[i];
        let part = parts[k];
        assert(parts.contains(part));
        match ipv4_net_parse(str_trim(part)) {
            Some(net) => {
                if net.1 <= 32 {
                    law_candidates_inside_network(net);
                    assert(net_candidates(net)[j] == all[i]);
                    assert(inside_part(part, all[i]));
                } else {
                    assert(part_candidates(part).len() == 0);
                }
            },
            None => {
                assert(part_candidates(part).len() == 0);
            },
        }
    }
}

/// Every flag that a server's location names has an embedded image: the flags of
/// both location tables are all in the image table.
pub proof fn law_server_flags_are_embedded()
    ensures
        forall|i: int| 0 <= i < SERVER_ROWS ==> has_flag(#[trigger] server_flag(i)),
        forall|i: int| 0 <= i < NAME_ROWS ==> has_flag(#[trigger] name_flag(i)),
{
    assert forall|i: int| 0 <= i < SERVER_ROWS implies has_flag(#[trigger] server_flag(i)) by {
            if i == 0 {
                assert(flag_code(0) == server_flag(i));
            } else if i == 1 {
                assert(flag_code(1) == server_flag(i));
            } else if i == 2 {
                assert(flag_code(2) == server_flag(i));
            } else if i == 3 {
                assert(flag_code(3) == server_flag(i));
            } else if i == 4 {
                assert(flag_code(4) == server_flag(i));
            } else if i == 5 {
                assert(flag_code(5) == server_flag(i));
            } else if i == 6 {
                assert(flag_code(6) == server_flag(i));
            } else if i == 7 {
                assert(flag_code(6) == server_flag(i));
            } else if i == 8 {
                assert(flag_code(1) == server_flag(i));
            } else if i == 9 {
                assert(flag_code(2) == server_flag(i));
            } else if i == 10 {
                assert(flag_code(3) == server_flag(i));
            } else if i == 11 {
                assert(flag_code(20) == server_flag(i));
            } else if i == 12 {
                assert(flag_code(21) == server_flag(i));
            } else if i == 13 {
                assert(flag_code(4) == server_flag(i));
            } else if i == 14 {
                assert(flag_code(5) == server_flag(i));
            } else if i == 15 {
                assert(flag_code(5) == server_flag(i));
            } else if i == 16 {
                assert(flag_code(9) == server_flag(i));
            } else if i == 17 {
                assert(flag_code(19) == server_flag(i));
            } else if i == 18 {
                assert(flag_code(8) == server_flag(i));
            } else if i == 19 {
                assert(flag_code(7) == server_flag(i));
            } else if i == 20 {
                assert(flag_code(7) == server_flag(i));
            } else if i == 21 {
                assert(flag_code(6) == server_flag(i));
            } else if i == 22 {
                assert(flag_code(6) == server_flag(i));
            } else if i == 23 {
                assert(flag_code(6) == server_flag(i));
            } else if i == 24 {
                assert(flag_code(6) == server_flag(i));
            } else if i == 25 {
                assert(flag_code(6) == server_flag(i));
            } else if i == 26 {
                assert(flag_code(6) == server_flag(i));
            } else if i == 27 {
                assert(flag_code(6) == server_flag(i));
            } else if i == 28 {
                assert(flag_code(13) == server_flag(i));
            } else if i == 29 {
                assert(flag_code(14) == server_flag(i));
            } else if i == 30 {
                assert(flag_code(15) == server_flag(i));
            } else if i == 31 {
                assert(flag_code(16) == server_flag(i));
            } else if i == 32 {
                assert(flag_code(10) == server_flag(i));
            } else if i == 33 {
                assert(flag_code(11) == server_flag(i));
            } else if i == 34 {
                assert(flag_code(12) == server_flag(i));
            } else if i == 35 {
                assert(flag_code(17) == server_flag(i));
            } else if i == 36 {
                assert(flag_code(18) == server_flag(i));
            } else {
            }
    }
    assert forall|i: int| 0 <= i < NAME_ROWS implies has_flag(#[trigger] name_flag(i)) by {
            if i == 0 {
                assert(flag_code(0) == name_flag(i));
            } else if i == 1 {
                assert(flag_code(1) == name_flag(i));
            } else if i == 2 {
                assert(flag_code(2) == name_flag(i));
            } else if i == 3 {
                assert(flag_code(3) == name_flag(i));
            } else if i == 4 {
                assert(flag_code(20) == name_flag(i));
            } else if i == 5 {
                assert(flag_code(4) == name_flag(i));
            } else if i == 6 {
                assert(flag_code(5) == name_flag(i));
            } else if i == 7 {
                assert(flag_code(9) == name_flag(i));
            } else if i == 8 {
                assert(flag_code(19) == name_flag(i));
            } else if i == 9 {
                assert(flag_code(8) == name_flag(i));
            } else if i == 10 {
                assert(flag_code(7) == name_flag(i));
            } else if i == 11 {
                assert(flag_code(6) == name_flag(i));
            } else if i == 12 {
                assert(flag_code(6) == name_flag(i));
            } else if i == 13 {
                assert(flag_code(6) == name_flag(i));
            } else if i == 14 {
                assert(flag_code(6) == name_flag(i));
            } else if i == 15 {
                assert(flag_code(13) == name_flag(i));
            } else if i == 16 {
                assert(flag_code(14) == name_flag(i));
            } else if i == 17 {
                assert(flag_code(15) == name_flag(i));
            } else if i == 18 {
                assert(flag_code(16) == name_flag(i));
            } else if i == 19 {
                assert(flag_code(10) == name_flag(i));
            } else if i == 20 {
                assert(flag_code(12) == name_flag(i));
            } else if i == 21 {
                assert(flag_code(17) == name_flag(i));
            } else if i == 22 {
                assert(flag_code(18) == name_flag(i));
            } else {
            }
    }
}

/// A change of the wanted selection made while the game is open waits, and is sent
/// when the game closes: the request then sent applies exactly the selection
/// wanted at the change.
pub proof fn law_pending_change_sent_on_close(
    s: TemplateApp,
    waiting: TemplateApp,
    a: FirewallAction,
    closed: TemplateApp,
    req: Option<FirewallRequest>,
)
    requires
        s.game_open,
        s.firewall_step(waiting, a),
        waiting.game_step(false, closed, req),
    ensures
        a is WaitForGameToClose,
        !closed.game_open,
        !closed.pending_firewall_sync_when_game_is_closed,
        closed.config == s.config,
        req matches Some(r) && r.blocked_servers@ == s.servers().filter(in_selection(s.config.desired_blocked_servers@)),
{
}

// ------------------------------------------------------------------ latencies, stated on the floats

/// Whether the 32 bits of a float are a NaN: exponent all ones, fraction not zero.
pub open spec fn nan_pattern(v: u32) -> bool {
    v % 0x8000_0000 > 0x7f80_0000
}

/// A latency that the float comparison `v < f32::INFINITY` accepts: neither NaN nor
/// positive infinity.
pub open spec fn finite_or_negative(v: u32) -> bool {
    !nan_pattern(v) && v != 0x7f80_0000
}

/// Rank of a non-NaN float in value order (`-0.0` and `0.0` share a rank): negative
/// numbers count down from the sign bit, non-negative ones count up from it.
pub open spec fn value_rank(v: u32) -> int {
    if v == 0x8000_0000 {
        0x8000_0000
    } else if v < 0x8000_0000 {
        v + 0x8000_0000
    } else {
        0xffff_ffff - v
    }
}

/// Rank of a float in the order of `f32::total_cmp` (`-0.0` before `0.0`).
pub open spec fn total_rank(v: u32) -> int {
    if v < 0x8000_0000 {
        v + 0x8000_0000
    } else {
        0xffff_ffff - v
    }
}

/// The latency last measured for a server, when that measurement succeeded.
pub open spec fn answered(pings: Map<Seq<char>, Result<u32, Seq<char>>>, s: KnownServer) -> Option<u32> {
    if pings.contains_key(s.ping@) {
        match pings[s.ping@] {
            Ok(v) => Some(v),
            Err(_) => None,
        }
    } else {
        None
    }
}

/// Server `j` is one the player can land on: the firewall does not block it and its
/// latest measurement gave a latency below infinity.
pub open spec fn can_land(servers: Seq<KnownServer>, blocked: Set<u8>, pings: Map<Seq<char>, Result<u32, Seq<char>>>, j: int) -> bool {
    &&& 0 <= j < servers.len()
    &&& !blocked.contains(servers[j].bit)
    &&& answered(pings, servers[j]) matches Some(v) && finite_or_negative(v)
}

proof fn lemma_eligible_is_can_land(servers: Seq<KnownServer>, blocked: Set<u8>, pings: Map<Seq<char>, Result<u32, Seq<char>>>)
    ensures
        forall|j: int| #[trigger] eligible(servers, blocked, pings, j) <==> can_land(servers, blocked, pings, j),
        forall|j: int| #[trigger] can_land(servers, blocked, pings, j) ==> answered(pings, servers[j]) == Some(
            latency_at(servers, pings, j),
        ) && value_key(latency_at(servers, pings, j)) == value_rank(latency_at(servers, pings, j)),
{
}

/// The server reported as where the player lands is one the firewall does not block
/// and that answered below infinity, with the lowest latency of all such servers
/// (the first of them on a tie); there is one exactly when some such server exists.
/// Any latency counts, however high, and so does a negative one.
pub proof fn law_best_server_is_the_lowest_answering(
    servers: Seq<KnownServer>,
    blocked: Set<u8>,
    pings: Map<Seq<char>, Result<u32, Seq<char>>>,
    r: Option<usize>,
)
    requires
        match r {
            Some(i) => is_best(servers, blocked, pings, i as int),
            None => forall|j: int| !eligible(servers, blocked, pings, j),
        },
    ensures
        r is Some <==> exists|j: int| can_land(servers, blocked, pings, j),
        r matches Some(i) ==> {
            &&& can_land(servers, blocked, pings, i as int)
            &&& forall|j: int| #[trigger] can_land(servers, blocked, pings, j) ==> value_rank(answered(pings, servers[i as int])->0)
                <= value_rank(answered(pings, servers[j])->0)
            &&& forall|j: int| 0 <= j < i && #[trigger] can_land(servers, blocked, pings, j) ==> value_rank(
                answered(pings, servers[i as int])->0,
            ) < value_rank(answered(pings, servers[j])->0)
        },
{
    lemma_eligible_is_can_land(servers, blocked, pings);
    match r {
        Some(i) => {
            assert(can_land(servers, blocked, pings, i as int));
            assert forall|j: int| #[trigger] can_land(servers, blocked, pings, j) implies value_rank(
                answered(pings, servers[i as int])->0,
            ) <= value_rank(answered(pings, servers[j])->0) by {
                assert(eligible(servers, blocked, pings, j));
            }
            assert forall|j: int| 0 <= j < i && #[trigger] can_land(servers, blocked, pings, j) implies value_rank(
                answered(pings, servers[i as int])->0,
            ) < value_rank(answered(pings, servers[j])->0) by {
                assert(eligible(servers, blocked, pings, j));
            }
        },
        None => {
            if exists|j: int| can_land(servers, blocked, pings, j) {
                let j = choose|j: int| can_land(servers, blocked, pings, j);
                assert(eligible(servers, blocked, pings, j));
            }
        },
    }
}

/// What a server is sorted by: its latest successful latency, or infinity when its
/// measurement failed or is missing.
pub open spec fn sort_latency(pings: Map<Seq<char>, Result<u32, Seq<char>>>, s: KnownServer) -> u32 {
    match answered(pings, s) {
        Some(v) => v,
        None => 0x7f80_0000,
    }
}

/// Ordering by latency lists the servers by `f32::total_cmp` of their latency, a
/// failed or missing measurement counting as infinity, and keeps list order among
/// equal latencies; so a server whose measurement failed comes after every server
/// that answered below infinity.
pub proof fn law_order_by_latency_sorts(servers: Seq<KnownServer>, pings: Map<Seq<char>, Result<u32, Seq<char>>>, r: Seq<usize>)
    requires
        r.len() == servers.len(),
        forall|a: int| 0 <= a < r.len() ==> r[a] < servers.len(),
        forall|a: int, b: int| 0 <= a < b < r.len() ==> ordered_before(servers, pings, r[a] as int, r[b] as int),
    ensures
        forall|a: int, b: int| 0 <= a < b < r.len() ==> total_rank(sort_latency(pings, servers[#[trigger] r[a] as int])) <= total_rank(
            sort_latency(pings, servers[#[trigger] r[b] as int]),
        ),
        forall|a: int, b: int| 0 <= a < b < r.len() && total_rank(sort_latency(pings, servers[#[trigger] r[a] as int])) == total_rank(
            sort_latency(pings, servers[#[trigger] r[b] as int]),
        ) ==> r[a] < r[b],
        forall|a: int, b: int|
            0 <= a < r.len() && 0 <= b < r.len() && pings.contains_key(servers[#[trigger] r[a] as int].ping@) && pings[servers[r[a] as int].ping@] is Err
                && (answered(pings, servers[#[trigger] r[b] as int]) matches Some(v) && finite_or_negative(v)) ==> b < a,
{
    assert forall|k: int| 0 <= k < servers.len() implies #[trigger] order_key(servers, pings, k) == total_rank(sort_latency(pings, servers[k])) by {}
    assert forall|a: int, b: int| 0 <= a < b < r.len() implies total_rank(sort_latency(pings, servers[#[trigger] r[a] as int])) <= total_rank(
        sort_latency(pings, servers[#[trigger] r[b] as int]),
    ) && (total_rank(sort_latency(pings, servers[r[a] as int])) == total_rank(sort_latency(pings, servers[r[b] as int])) ==> r[a] < r[b]) by {
        assert(ordered_before(servers, pings, r[a] as int, r[b] as int));
        assert(order_key(servers, pings, r[a] as int) == total_rank(sort_latency(pings, servers[r[a] as int])));
        assert(order_key(servers, pings, r[b] as int) == total_rank(sort_latency(pings, servers[r[b] as int])));
    }
    assert forall|a: int, b: int|
        0 <= a < r.len() && 0 <= b < r.len() && pings.contains_key(servers[#[trigger] r[a] as int].ping@) && pings[servers[r[a] as int].ping@] is Err
            && (answered(pings, servers[#[trigger] r[b] as int]) matches Some(v) && finite_or_negative(v)) implies b < a by {
        assert(order_key(servers, pings, r[a] as int) == 0xff80_0000);
        assert(order_key(servers, pings, r[b] as int) < 0xff80_0000);
        if a < b {
            assert(ordered_before(servers, pings, r[a] as int, r[b] as int));
        }
        if a == b {
            assert(r[a] == r[b]);
        }
    }
}

// ------------------------------------------------------------------ clicks and shortcuts

proof fn lemma_filter_two(s: Seq<KnownServer>, p: spec_fn(KnownServer) -> bool, a: int, b: int)
    requires
        0 <= a < b < s.len(),
        p(s[a]),
        p(s[b]),
    ensures
        s.filter(p).len() >= 2,
    decreases s.len(),
{
    let d = s.drop_last();
    assert(s =~= d.push(s.last()));
    d.lemma_filter_push(s.last(), p);
    if b == s.len() - 1 {
        assert(d[a] == s[a]);
        lemma_filter_has(d, p, a);
    } else {
        assert(d[a] == s[a] && d[b] == s[b]);
        lemma_filter_two(d, p, a, b);
    }
}

/// Another listed server than `idx` is outside `sel` (allowed).
pub open spec fn another_allowed(servers: Seq<KnownServer>, sel: Set<u8>, idx: int) -> bool {
    exists|k: int| 0 <= k < servers.len() && k != idx && !sel.contains(#[trigger] servers[k].bit)
}

/// What a click on server `idx` does to the wanted selection `sel`. Left click: a
/// blocked server is allowed; an allowed server is blocked when another listed server
/// stays allowed, and otherwise the click is refused and nothing changes. Right
/// click: every slot but the server's is blocked, whether the server was blocked or
/// not; only on the last allowed server it is the other way round, and only that
/// server is blocked.
pub proof fn law_click_outcome(s: TemplateApp, idx: usize, invert: bool, post: TemplateApp, r: ToggleOutcome)
    requires
        s.wf(),
        idx < s.servers().len(),
        s.toggle_step(idx, invert, post, r),
    ensures
        ({
            let servers = s.servers();
            let sel = s.config.desired_blocked_servers@;
            let b = servers[idx as int].bit;
            let now = post.config.desired_blocked_servers@;
            let last_allowed = !sel.contains(b) && !another_allowed(servers, sel, idx as int);
            &&& invert && !last_allowed ==> now == Set::new(|x: u8| x < 64 && x != b)
            &&& invert && last_allowed ==> now == Set::empty().insert(b)
            &&& !invert && sel.contains(b) ==> now == sel.remove(b)
            &&& !invert && !sel.contains(b) && another_allowed(servers, sel, idx as int) ==> now == sel.insert(b)
            &&& !invert && last_allowed ==> r is WouldBlockAll && post == s
        }),
{
    let servers = s.servers();
    let sel = s.config.desired_blocked_servers@;
    let i = idx as int;
    let b = servers[i].bit;
    let p = outside_selection(sel);
    if !sel.contains(b) {
        if another_allowed(servers, sel, i) {
            let k = choose|k: int| 0 <= k < servers.len() && k != i && !sel.contains(#[trigger] servers[k].bit);
            if k < i {
                lemma_filter_two(servers, p, k, i);
            } else {
                lemma_filter_two(servers, p, i, k);
            }
        } else {
            lemma_filter_at_most_one(servers, p, i);
            lemma_filter_has(servers, p, i);
        }
    }
    assert(all_slots().remove(b) =~= Set::new(|x: u8| x < 64 && x != b));
}

/// The token `t` is one of the shortcut's tokens.
pub open spec fn token_listed(tokens: Seq<String>, t: Seq<char>) -> bool {
    exists|j: int| 0 <= j < tokens.len() && tokens[j]@ == t
}

/// Slot `b` is the slot of a listed server whose token the shortcut names.
pub open spec fn slot_of_named(servers: Seq<KnownServer>, tokens: Seq<String>, b: u8) -> bool {
    exists|k: int| 0 <= k < servers.len() && servers[k].bit == b && token_listed(tokens, #[trigger] servers[k].token@)
}

proof fn lemma_preset_set_members(servers: Seq<KnownServer>, tokens: Seq<String>, b: u8)
    ensures
        preset_set(servers, tokens).contains(b) <==> slot_of_named(servers, tokens, b),
    decreases servers.len(),
{
    if servers.len() > 0 {
        let d = servers.drop_last();
        lemma_preset_set_members(d, tokens, b);
        let last = servers.last();
        if slot_of_named(d, tokens, b) {
            let k = choose|k: int| 0 <= k < d.len() && d[k].bit == b && token_listed(tokens, #[trigger] d[k].token@);
            assert(servers[k] == d[k]);
        }
        if slot_of_named(servers, tokens, b) {
            let k = choose|k: int| 0 <= k < servers.len() && servers[k].bit == b && token_listed(tokens, #[trigger] servers[k].token@);
            if k < servers.len() - 1 {
                assert(d[k] == servers[k]);
            }
        }
        if last.bit == b && token_listed(tokens, last.token@) {
            assert(servers[servers.len() - 1] == last);
        }
    }
}

/// Applying a shortcut makes the wanted selection exactly the slots of the listed
/// servers whose tokens the shortcut names. With distinct slots it is refused exactly
/// when it names every listed server (and there is one): a shortcut that leaves any
/// listed server out, the first one too, is applied.
pub proof fn law_preset_outcome(s: TemplateApp, i: usize, post: TemplateApp, r: PresetOutcome)
    requires
        s.wf(),
        i < s.config.presets@.len(),
        s.preset_step(i, post, r),
    ensures
        ({
            let servers = s.servers();
            let tokens = s.config.presets@[i as int].blocked@;
            &&& !(r is WouldBlockAll) ==> forall|b: u8| #[trigger] post.config.desired_blocked_servers@.contains(b) <==> slot_of_named(servers, tokens, b)
            &&& distinct_slots(servers) ==> (r is WouldBlockAll <==> (servers.len() > 0 && forall|k: int|
                0 <= k < servers.len() ==> token_listed(tokens, #[trigger] servers[k].token@)))
        }),
{
    let servers = s.servers();
    let tokens = s.config.presets@[i as int].blocked@;
    let n = preset_set(servers, tokens);
    assert forall|b: u8| #[trigger] n.contains(b) <==> slot_of_named(servers, tokens, b) by {
        lemma_preset_set_members(servers, tokens, b);
    }
    if distinct_slots(servers) {
        if blocks_all(servers, n) {
            assert forall|k: int| 0 <= k < servers.len() implies token_listed(tokens, #[trigger] servers[k].token@) by {
                assert(n.contains(servers[k].bit));
                let m = choose|m: int| 0 <= m < servers.len() && servers[m].bit == servers[k].bit && token_listed(tokens, #[trigger] servers[m].token@);
            }
        } else if servers.len() > 0 {
            let k = choose|k: int| 0 <= k < servers.len() && !n.contains(#[trigger] servers[k].bit);
            assert(!slot_of_named(servers, tokens, servers[k].bit));
            assert(!token_listed(tokens, servers[k].token@));
        }
    }
}

// ------------------------------------------------------------------ the status line

/// Message `j` was logged at most nine seconds before `now`.
pub open spec fn logged_lately(logs: Seq<LogEntry>, now: i64, j: int) -> bool {
    0 <= j < logs.len() && logs[j].time_ns >= now - 9_000_000_000
}

/// The status line shows the latest recent error; without one, the latest recent
/// warning; without either, the latest recent message; nothing when no message is
/// recent. "Latest" means no later message of the same kind is recent.
pub proof fn law_status_line_shows_the_latest(logs: Seq<LogEntry>, now: i64, r: Option<(usize, StatusKind)>)
    requires
        status_shown(logs, now, r),
    ensures
        r is None <==> forall|j: int| !#[trigger] logged_lately(logs, now, j),
        (exists|j: int| #[trigger] logged_lately(logs, now, j) && logs[j].level == LogLevel::Error) ==> (r matches Some((_, k)) && k == StatusKind::Error),
        r matches Some((i, k)) ==> ({
            &&& logged_lately(logs, now, i as int)
            &&& k == StatusKind::Error ==> logs[i as int].level == LogLevel::Error && forall|j: int|
                i < j < logs.len() && #[trigger] logged_lately(logs, now, j) ==> logs[j].level != LogLevel::Error
            &&& k == StatusKind::Warning ==> logs[i as int].level == LogLevel::Warn && (forall|j: int|
                #[trigger] logged_lately(logs, now, j) ==> logs[j].level != LogLevel::Error) && forall|j: int|
                i < j < logs.len() && #[trigger] logged_lately(logs, now, j) ==> logs[j].level != LogLevel::Warn
            &&& k == StatusKind::Plain ==> (forall|j: int| #[trigger] logged_lately(logs, now, j) ==> logs[j].level != LogLevel::Error
                && logs[j].level != LogLevel::Warn) && forall|j: int| i < j < logs.len() ==> !#[trigger] logged_lately(logs, now, j)
        }),
{
    assert forall|j: int, l: Option<LogLevel>| #[trigger] candidate(logs, now, l, j) <==> logged_lately(logs, now, j) && match l {
        Some(v) => logs[j].level == v,
        None => true,
    } by {}
    if exists|j: int| #[trigger] logged_lately(logs, now, j) && logs[j].level == LogLevel::Error {
        let j = choose|j: int| #[trigger] logged_lately(logs, now, j) && logs[j].level == LogLevel::Error;
        assert(candidate(logs, now, Some(LogLevel::Error), j));
        assert(candidate(logs, now, None, j));
    }
    if r is None {
        assert forall|j: int| !#[trigger] logged_lately(logs, now, j) by {
            assert(!candidate(logs, now, None, j));
        }
    }
    match r {
        Some((i, k)) => {
            match k {
                StatusKind::Error => {
                    assert(candidate(logs, now, Some(LogLevel::Error), i as int));
                    assert forall|j: int| i < j < logs.len() && #[trigger] logged_lately(logs, now, j) implies logs[j].level != LogLevel::Error by {
                        assert(!candidate(logs, now, Some(LogLevel::Error), j));
                    }
                },
                StatusKind::Warning => {
                    assert(candidate(logs, now, Some(LogLevel::Warn), i as int));
                    assert forall|j: int| #[trigger] logged_lately(logs, now, j) implies logs[j].level != LogLevel::Error by {
                        assert(!candidate(logs, now, Some(LogLevel::Error), j));
                    }
                    assert forall|j: int| i < j < logs.len() && #[trigger] logged_lately(logs, now, j) implies logs[j].level != LogLevel::Warn by {
                        assert(!candidate(logs, now, Some(LogLevel::Warn), j));
                    }
                },
                StatusKind::Plain => {
                    assert(candidate(logs, now, None, i as int));
                    assert forall|j: int| #[trigger] logged_lately(logs, now, j) implies logs[j].level != LogLevel::Error
                        && logs[j].level != LogLevel::Warn by {
                        assert(!candidate(logs, now, Some(LogLevel::Error), j));
                        assert(!candidate(logs, now, Some(LogLevel::Warn), j));
                    }
                    assert forall|j: int| i < j < logs.len() implies !#[trigger] logged_lately(logs, now, j) by {
                        assert(!candidate(logs, now, None, j));
                    }
                },
            }
        },
        None => {},
    }
}

} // verus!
