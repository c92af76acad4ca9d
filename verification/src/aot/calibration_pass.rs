//! What a calibration trace says of the experts: how often each was selected,
//! which ones were selected together, and which tier each belongs to.

use crate::aot::tally::{Collector, Counter};
use crate::aot::types::ExpertTier;
use crate::ieee;
use crate::rank;
use crate::text;
use vstd::prelude::*;
use vstd::relations::*;
use vstd::set_lib::*;
use vstd::string::*;

verus! {

/// The experts that a token selected in a layer, with the bit patterns of their
/// single-precision weights.
#[derive(Debug, Clone)]
pub struct CalibrationTraceEvent {
    pub token_id: Option<u64>,
    pub layer: u32,
    pub selected_experts: Vec<u32>,
    pub selected_weights: Vec<u32>,
}

// ---------------------------------------------------------------------------
// Reading traces
// ---------------------------------------------------------------------------

/// The lines of a trace that hold an event, with their numbers from one on.
pub open spec fn event_lines(lines: Seq<Seq<char>>) -> Seq<(nat, Seq<char>)>
    decreases lines.len(),
{
    if lines.len() == 0 {
        Seq::empty()
    } else {
        let front = event_lines(lines.drop_last());
        let line = text::trimmed(lines.last());
        if line.len() == 0 {
            front
        } else {
            front.push((lines.len(), line))
        }
    }
}

/// The lines as numbers and texts.
pub open spec fn line_views(lines: Seq<(usize, String)>) -> Seq<(nat, Seq<char>)> {
    lines.map_values(|l: (usize, String)| (l.0 as nat, l.1@))
}

/// The lines of a trace that hold an event: without the white space around them,
/// and without those that hold nothing else.
pub fn calibration_lines(trace: &str) -> (lines: Vec<(usize, String)>)
    ensures
        line_views(lines@) == event_lines(text::split_on(trace@, '\n')),
{
    let pieces = text::split_text(trace, '\n');
    let ghost all = text::views(pieces@);
    let mut lines: Vec<(usize, String)> = Vec::new();
    let mut i: usize = 0;
    assert(all.take(0) == Seq::<Seq<char>>::empty());
    while i < pieces.len()
        invariant
            i <= pieces@.len(),
            all == text::views(pieces@),
            line_views(lines@) == event_lines(all.take(i as int)),
        decreases pieces@.len() - i,
    {
        assert(all.take(i + 1).drop_last() == all.take(i as int));
        assert(all.take(i + 1).last() == pieces@[i as int]@);
        let line = text::trim_text(pieces[i].as_str());
        proof {
            reveal_strlit("");
            if line@.len() == 0 {
                assert(line@ == ""@);
            }
        }
        if !text::text_eq(line.as_str(), "") {
            let ghost was = lines@;
            let ghost shown = line@;
            lines.push((i + 1, line));
            assert(line_views(lines@) == line_views(was).push(((i + 1) as nat, shown)));
        }
        i = i + 1;
    }
    assert(all.take(i as int) == all);
    lines
}

/// What to say of a line that holds no readable event.
pub fn bad_event(path: &str, line: usize, why: &str) -> (s: String)
    ensures
        s@ == "failed to parse calibration event at "@ + path@ + ":"@ + text::decimal(
            line as nat,
        ) + ": "@ + why@,
{
    let mut s = "failed to parse calibration event at ".to_owned();
    s.append(path);
    s.append(":");
    text::push_usize(&mut s, line);
    s.append(": ");
    s.append(why);
    s
}

/// Whether an event of a run's statistics counts as one of a trace: it selects
/// something, with a weight.
pub fn keeps_io_event(experts: usize, weights: usize) -> (yes: bool)
    ensures
        yes == (experts > 0 && weights > 0),
{
    experts > 0 && weights > 0
}

// ---------------------------------------------------------------------------
// What an event counts for
// ---------------------------------------------------------------------------

/// How many selections of an event have both an expert and a weight.
pub open spec fn counted(e: CalibrationTraceEvent) -> nat {
    if e.selected_experts@.len() <= e.selected_weights@.len() {
        e.selected_experts@.len()
    } else {
        e.selected_weights@.len()
    }
}

/// The weights that the first `n` selections of an event give an expert.
pub open spec fn weights_in(e: CalibrationTraceEvent, layer: u32, expert: u32, n: nat) -> Seq<u32>
    decreases n,
{
    if n == 0 {
        Seq::empty()
    } else {
        let front = weights_in(e, layer, expert, (n - 1) as nat);
        if e.layer == layer && e.selected_experts@[n - 1] == expert {
            front.push(e.selected_weights@[n - 1])
        } else {
            front
        }
    }
}

/// The weights that a trace gives an expert, in order.
pub open spec fn weights_of(events: Seq<CalibrationTraceEvent>, layer: u32, expert: u32) -> Seq<u32>
    decreases events.len(),
{
    if events.len() == 0 {
        Seq::empty()
    } else {
        weights_of(events.drop_last(), layer, expert) + weights_in(
            events.last(),
            layer,
            expert,
            counted(events.last()),
        )
    }
}

/// How many events of a trace select something in a layer.
pub open spec fn layer_events(events: Seq<CalibrationTraceEvent>, layer: u32) -> nat
    decreases events.len(),
{
    if events.len() == 0 {
        0
    } else {
        layer_events(events.drop_last(), layer) + if counted(events.last()) > 0
            && events.last().layer == layer {
            1nat
        } else {
            0
        }
    }
}

/// How many events of a trace select something.
pub open spec fn all_events(events: Seq<CalibrationTraceEvent>) -> nat
    decreases events.len(),
{
    if events.len() == 0 {
        0
    } else {
        all_events(events.drop_last()) + if counted(events.last()) > 0 {
            1nat
        } else {
            0
        }
    }
}

/// An event selects both experts.
pub open spec fn selects_both(e: CalibrationTraceEvent, layer: u32, a: u32, b: u32) -> bool {
    let chosen = e.selected_experts@.take(counted(e) as int);
    e.layer == layer && a < b && chosen.contains(a) && chosen.contains(b)
}

/// How many events of a trace select both experts.
pub open spec fn pair_events(
    events: Seq<CalibrationTraceEvent>,
    layer: u32,
    a: u32,
    b: u32,
) -> nat
    decreases events.len(),
{
    if events.len() == 0 {
        0
    } else {
        pair_events(events.drop_last(), layer, a, b) + if selects_both(events.last(), layer, a, b) {
            1nat
        } else {
            0
        }
    }
}

/// Events are counted at most once each.
pub proof fn counts_are_bounded(events: Seq<CalibrationTraceEvent>, layer: u32, a: u32, b: u32)
    ensures
        layer_events(events, layer) <= all_events(events) <= events.len(),
        pair_events(events, layer, a, b) <= layer_events(events, layer),
    decreases events.len(),
{
    if events.len() > 0 {
        counts_are_bounded(events.drop_last(), layer, a, b);
        let e = events.last();
        if selects_both(e, layer, a, b) {
            assert(e.selected_experts@.take(counted(e) as int).len() > 0);
        }
    }
}

// ---------------------------------------------------------------------------
// Counting
// ---------------------------------------------------------------------------

/// How an expert was used: how often it was selected, and with which weights.
#[derive(Debug, Clone)]
pub struct ExpertUsage {
    pub layer: u32,
    pub expert: u32,
    pub selected_count: u64,
    pub weights: Vec<u32>,
}

/// How many events selected something in a layer.
#[derive(Debug, Clone, Copy, PartialEq, Eq, Structural)]
pub struct LayerEventCount {
    pub layer: u32,
    pub count: u64,
}

/// How many events selected two experts of a layer together.
#[derive(Debug, Clone, Copy, PartialEq, Eq, Structural)]
pub struct PairCount {
    pub layer: u32,
    pub expert_a: u32,
    pub expert_b: u32,
    pub co_count: u64,
}

/// What a trace says.
#[derive(Debug, Clone)]
pub struct CalibrationCounts {
    pub usage: Vec<ExpertUsage>,
    pub layer_event_counts: Vec<LayerEventCount>,
    pub pairs: Vec<PairCount>,
    pub total_events: u64,
}

spec fn usage_code(layer: u32, expert: u32) -> u128 {
    (layer * 0x1_0000_0000 + expert) as u128
}

spec fn pair_code(layer: u32, a: u32, b: u32) -> u128 {
    (layer * 0x1_0000_0000_0000_0000 + a * 0x1_0000_0000 + b) as u128
}

/// The list holds the experts of the trace, each once, by layer and expert.
pub open spec fn is_usage(list: Seq<ExpertUsage>, events: Seq<CalibrationTraceEvent>) -> bool {
    &&& forall|i: int, j: int|
        0 <= i < j < list.len() ==> {
            let (p, q) = (#[trigger] list[i], #[trigger] list[j]);
            p.layer < q.layer || (p.layer == q.layer && p.expert < q.expert)
        }
    &&& forall|i: int|
        0 <= i < list.len() ==> {
            &&& (#[trigger] list[i]).weights@ == weights_of(events, list[i].layer, list[i].expert)
            &&& list[i].selected_count == list[i].weights@.len()
            &&& list[i].selected_count > 0
        }
    &&& forall|layer: u32, expert: u32|
        (#[trigger] weights_of(events, layer, expert)).len() > 0 ==> exists|i: int|
            0 <= i < list.len() && (#[trigger] list[i]).layer == layer && list[i].expert == expert
}

/// The list holds the layers of the trace, each once, in order.
pub open spec fn is_layer_counts(
    list: Seq<LayerEventCount>,
    events: Seq<CalibrationTraceEvent>,
) -> bool {
    &&& forall|i: int, j: int|
        0 <= i < j < list.len() ==> (#[trigger] list[i]).layer < (#[trigger] list[j]).layer
    &&& forall|i: int|
        0 <= i < list.len() ==> {
            &&& (#[trigger] list[i]).count == layer_events(events, list[i].layer)
            &&& list[i].count > 0
        }
    &&& forall|layer: u32|
        (#[trigger] layer_events(events, layer)) > 0 ==> exists|i: int|
            0 <= i < list.len() && (#[trigger] list[i]).layer == layer
}

/// Pairs are listed by layer, within a layer the most frequent first, and equally
/// frequent ones by their experts.
pub open spec fn pair_before(p: PairCount, q: PairCount) -> bool {
    p.layer < q.layer || (p.layer == q.layer && (p.co_count > q.co_count || (p.co_count
        == q.co_count && (p.expert_a < q.expert_a || (p.expert_a == q.expert_a && p.expert_b
        < q.expert_b)))))
}

/// Each pair says how often its experts were selected together.
pub open spec fn pairs_are_exact(
    list: Seq<PairCount>,
    events: Seq<CalibrationTraceEvent>,
) -> bool {
    &&& forall|i: int|
        0 <= i < list.len() ==> {
            &&& (#[trigger] list[i]).co_count == pair_events(
                events,
                list[i].layer,
                list[i].expert_a,
                list[i].expert_b,
            )
            &&& list[i].co_count > 0
        }
    &&& forall|layer: u32, a: u32, b: u32|
        (#[trigger] pair_events(events, layer, a, b)) > 0 ==> exists|i: int|
            0 <= i < list.len() && (#[trigger] list[i]).layer == layer && list[i].expert_a == a
                && list[i].expert_b == b
}

/// The list holds the pairs of the trace, each once, in order.
pub open spec fn is_pairs(list: Seq<PairCount>, events: Seq<CalibrationTraceEvent>) -> bool {
    &&& forall|i: int, j: int|
        0 <= i < j < list.len() ==> pair_before(#[trigger] list[i], #[trigger] list[j])
    &&& pairs_are_exact(list, events)
}

/// The numbers grow from one to the next.
spec fn ascending_experts(v: Seq<u32>) -> bool {
    forall|i: int, j: int| 0 <= i < j < v.len() ==> #[trigger] v[i] < #[trigger] v[j]
}

fn insert_expert(v: &mut Vec<u32>, x: u32)
    requires
        ascending_experts(old(v)@),
    ensures
        ascending_experts(final(v)@),
        forall|y: u32| #[trigger] final(v)@.contains(y) <==> old(v)@.contains(y) || y == x,
{
    let ghost was = v@;
    let mut i: usize = 0;
    while i < v.len() && v[i] < x
        invariant
            i <= v@.len(),
            v@ == was,
            forall|j: int| 0 <= j < i ==> #[trigger] was[j] < x,
        decreases v@.len() - i,
    {
        i = i + 1;
    }
    if i < v.len() && v[i] == x {
        assert(was[i as int] == x);
        return;
    }
    v.insert(i, x);
    proof {
        let now = v@;
        assert forall|a: int, b: int| 0 <= a < b < now.len() implies #[trigger] now[a]
            < #[trigger] now[b] by {
            let p = if a < i {
                a
            } else {
                a - 1
            };
            let q = if b < i {
                b
            } else {
                b - 1
            };
            if a == i {
                assert(now[b] == was[q]);
                assert(was[i as int] <= was[q]);
            } else if b == i {
                assert(now[a] == was[p]);
            } else {
                assert(now[a] == was[p] && now[b] == was[q]);
            }
        }
        assert forall|y: u32| #[trigger] now.contains(y) <==> was.contains(y) || y == x by {
            if now.contains(y) {
                let a = choose|a: int| 0 <= a < now.len() && now[a] == y;
                if a < i {
                    assert(was[a] == y);
                } else if a > i {
                    assert(was[a - 1] == y);
                }
            }
            if was.contains(y) {
                let a = choose|a: int| 0 <= a < was.len() && was[a] == y;
                if a < i {
                    assert(now[a] == y);
                } else {
                    assert(now[a + 1] == y);
                }
            }
            if y == x {
                assert(now[i as int] == y);
            }
        }
    }
}

/// The pair stands in the first `i` rows of the table of pairs, or in row `i`
/// before column `j`.
spec fn pair_done(v: Seq<u32>, i: int, j: int, a: u32, b: u32) -> bool {
    exists|p: int, q: int|
        0 <= p < q < v.len() && #[trigger] v[p] == a && #[trigger] v[q] == b && (p < i || (p == i
            && q < j))
}

/// Going one column further adds one pair, which was not there before.
proof fn lemma_next_pair(v: Seq<u32>, i: int, j: int, a: u32, b: u32)
    requires
        ascending_experts(v),
        0 <= i < j < v.len(),
    ensures
        pair_done(v, i, j + 1, a, b) <==> pair_done(v, i, j, a, b) || (a == v[i] && b == v[j]),
        a == v[i] && b == v[j] ==> !pair_done(v, i, j, a, b),
{
    if pair_done(v, i, j, a, b) {
        let (p, q) = choose|p: int, q: int|
            0 <= p < q < v.len() && #[trigger] v[p] == a && #[trigger] v[q] == b && (p < i || (p
                == i && q < j));
        assert(v[p] == a && v[q] == b);
        if a == v[i] && b == v[j] {
            if p < i {
                assert(v[p] < v[i]);
            } else {
                assert(v[q] < v[j]);
            }
        }
    }
    if pair_done(v, i, j + 1, a, b) {
        let (p, q) = choose|p: int, q: int|
            0 <= p < q < v.len() && #[trigger] v[p] == a && #[trigger] v[q] == b && (p < i || (p
                == i && q < j + 1));
        assert(v[p] == a && v[q] == b);
    }
    if a == v[i] && b == v[j] {
        assert(v[i] == a && v[j] == b);
    }
}

/// A finished row is part of the rows before the next.
proof fn lemma_next_row(v: Seq<u32>, i: int, a: u32, b: u32)
    requires
        0 <= i < v.len(),
    ensures
        pair_done(v, i, v.len() as int, a, b) <==> pair_done(v, i + 1, i + 2, a, b),
{
    if pair_done(v, i, v.len() as int, a, b) {
        let (p, q) = choose|p: int, q: int|
            0 <= p < q < v.len() && #[trigger] v[p] == a && #[trigger] v[q] == b && (p < i || (p
                == i && q < v.len()));
        assert(v[p] == a && v[q] == b);
    }
    if pair_done(v, i + 1, i + 2, a, b) {
        let (p, q) = choose|p: int, q: int|
            0 <= p < q < v.len() && #[trigger] v[p] == a && #[trigger] v[q] == b && (p < i + 1 || (p
                == i + 1 && q < i + 2));
        assert(v[p] == a && v[q] == b);
    }
}

/// All rows together hold every pair of different members.
proof fn lemma_all_pairs(v: Seq<u32>, a: u32, b: u32)
    requires
        ascending_experts(v),
    ensures
        pair_done(v, v.len() as int, v.len() as int + 1, a, b) <==> a < b && v.contains(a) && v.contains(b),
        !pair_done(v, 0, 1, a, b),
{
    if pair_done(v, v.len() as int, v.len() as int + 1, a, b) {
        let (p, q) = choose|p: int, q: int|
            0 <= p < q < v.len() && #[trigger] v[p] == a && #[trigger] v[q] == b && (p < v.len()
                || (p == v.len() && q < v.len() + 1));
        assert(v[p] < v[q]);
    }
    if a < b && v.contains(a) && v.contains(b) {
        let p = choose|p: int| 0 <= p < v.len() && v[p] == a;
        let q = choose|q: int| 0 <= q < v.len() && v[q] == b;
        if q < p {
            assert(v[q] < v[p]);
        }
        assert(v[p] == a && v[q] == b);
    }
    if pair_done(v, 0, 1, a, b) {
        let (p, q) = choose|p: int, q: int|
            0 <= p < q < v.len() && #[trigger] v[p] == a && #[trigger] v[q] == b && (p < 0 || (p
                == 0 && q < 1));
        assert(false);
    }
}

fn count_pairs(pairs: &mut Counter, layer: u32, v: &Vec<u32>)
    requires
        old(pairs).wf(),
        ascending_experts(v@),
        forall|x: u128| #[trigger] old(pairs).count(x) < u64::MAX,
    ensures
        final(pairs).wf(),
        forall|l: u32, a: u32, b: u32|
            #![trigger final(pairs).count(pair_code(l, a, b))]
            final(pairs).count(pair_code(l, a, b)) == old(pairs).count(pair_code(l, a, b)) + if l
                == layer && a < b && v@.contains(a) && v@.contains(b) {
                1nat
            } else {
                0
            },
        forall|x: u128| #[trigger]
            final(pairs).count(x) > 0 ==> old(pairs).count(x) > 0 || x
                < 0x1_0000_0000_0000_0000_0000_0000,
{
    let ghost was = *pairs;
    let n: usize = v.len();
    let mut i: usize = 0;
    proof {
        assert forall|a: u32, b: u32| !(#[trigger] pair_done(v@, 0, 1, a, b)) by {
            lemma_all_pairs(v@, a, b);
        }
    }
    while i < n
        invariant
            i <= n,
            n == v@.len(),
            ascending_experts(v@),
            pairs.wf(),
            forall|x: u128| #[trigger] was.count(x) < u64::MAX,
            forall|l: u32, a: u32, b: u32|
                #![trigger pairs.count(pair_code(l, a, b))]
                pairs.count(pair_code(l, a, b)) == was.count(pair_code(l, a, b)) + if l == layer
                    && pair_done(v@, i as int, i + 1, a, b) {
                    1nat
                } else {
                    0
                },
            forall|x: u128| #[trigger]
                pairs.count(x) > 0 ==> was.count(x) > 0 || x < 0x1_0000_0000_0000_0000_0000_0000,
        decreases n - i,
    {
        let mut j: usize = i + 1;
        while j < n
            invariant
                i < n,
                i < j <= n,
                n == v@.len(),
                ascending_experts(v@),
                pairs.wf(),
                forall|x: u128| #[trigger] was.count(x) < u64::MAX,
                forall|l: u32, a: u32, b: u32|
                    #![trigger pairs.count(pair_code(l, a, b))]
                    pairs.count(pair_code(l, a, b)) == was.count(pair_code(l, a, b)) + if l
                        == layer && pair_done(v@, i as int, j as int, a, b) {
                        1nat
                    } else {
                        0
                    },
                forall|x: u128| #[trigger]
                    pairs.count(x) > 0 ==> was.count(x) > 0 || x
                        < 0x1_0000_0000_0000_0000_0000_0000,
            decreases n - j,
        {
            let (x, y) = (v[i], v[j]);
            let code: u128 = layer as u128 * 0x1_0000_0000_0000_0000 + x as u128 * 0x1_0000_0000
                + y as u128;
            assert(code == pair_code(layer, x, y));
            proof {
                lemma_next_pair(v@, i as int, j as int, x, y);
                assert(pairs.count(pair_code(layer, x, y)) == was.count(pair_code(layer, x, y)));
            }
            let ghost here = *pairs;
            pairs.bump(code);
            proof {
                assert forall|l: u32, a: u32, b: u32|
                    #![trigger pairs.count(pair_code(l, a, b))]
                    pairs.count(pair_code(l, a, b)) == was.count(pair_code(l, a, b)) + if l
                        == layer && pair_done(v@, i as int, j + 1, a, b) {
                        1nat
                    } else {
                        0
                    } by {
                    lemma_next_pair(v@, i as int, j as int, a, b);
                    assert(here.count(pair_code(l, a, b)) == was.count(pair_code(l, a, b)) + if l
                        == layer && pair_done(v@, i as int, j as int, a, b) {
                        1nat
                    } else {
                        0
                    });
                    assert(pair_code(l, a, b) == code ==> l == layer && a == x && b == y);
                }
                assert forall|c: u128| #[trigger]
                    pairs.count(c) > 0 implies was.count(c) > 0 || c
                    < 0x1_0000_0000_0000_0000_0000_0000 by {
                    if c != code {
                        assert(here.count(c) > 0);
                    }
                }
            }
            j = j + 1;
        }
        proof {
            assert forall|l: u32, a: u32, b: u32|
                #![trigger pairs.count(pair_code(l, a, b))]
                pairs.count(pair_code(l, a, b)) == was.count(pair_code(l, a, b)) + if l == layer
                    && pair_done(v@, i + 1, i + 2, a, b) {
                    1nat
                } else {
                    0
                } by {
                lemma_next_row(v@, i as int, a, b);
            }
        }
        i = i + 1;
    }
    proof {
        assert forall|l: u32, a: u32, b: u32|
            #![trigger pairs.count(pair_code(l, a, b))]
            pairs.count(pair_code(l, a, b)) == was.count(pair_code(l, a, b)) + if l == layer && a
                < b && v@.contains(a) && v@.contains(b) {
                1nat
            } else {
                0
            } by {
            lemma_all_pairs(v@, a, b);
        }
    }
}

fn distinct_experts(e: &CalibrationTraceEvent, n: usize) -> (v: Vec<u32>)
    requires
        n <= e.selected_experts@.len(),
    ensures
        ascending_experts(v@),
        forall|x: u32| #[trigger]
            v@.contains(x) <==> e.selected_experts@.take(n as int).contains(x),
{
    let mut v: Vec<u32> = Vec::new();
    let mut i: usize = 0;
    while i < n
        invariant
            i <= n <= e.selected_experts@.len(),
            ascending_experts(v@),
            forall|x: u32| #[trigger]
                v@.contains(x) <==> e.selected_experts@.take(i as int).contains(x),
        decreases n - i,
    {
        let ghost was = v@;
        let x: u32 = e.selected_experts[i];
        insert_expert(&mut v, x);
        proof {
            let before = e.selected_experts@.take(i as int);
            let after = e.selected_experts@.take(i + 1);
            assert(after == before.push(x));
            assert forall|y: u32| #[trigger] v@.contains(y) <==> after.contains(y) by {
                assert(was.contains(y) <==> before.contains(y));
                if before.contains(y) {
                    let k = choose|k: int| 0 <= k < before.len() && before[k] == y;
                    assert(after[k] == y);
                }
                if y == x {
                    assert(after[i as int] == y);
                }
                if after.contains(y) {
                    let k = choose|k: int| 0 <= k < after.len() && after[k] == y;
                    if k < i {
                        assert(before[k] == y);
                    }
                }
            }
        }
        i = i + 1;
    }
    v
}

fn collect_weights(usage: &mut Collector, e: &CalibrationTraceEvent, n: usize)
    requires
        old(usage).wf(),
        n == counted(*e),
    ensures
        final(usage).wf(),
        forall|l: u32, x: u32|
            #![trigger final(usage).under(usage_code(l, x))]
            final(usage).under(usage_code(l, x)) == old(usage).under(usage_code(l, x))
                + weights_in(*e, l, x, n as nat),
        forall|c: u128|
            (#[trigger] final(usage).under(c)).len() > 0 ==> old(usage).under(c).len() > 0 || c
                < 0x1_0000_0000_0000_0000,
{
    let ghost was = *usage;
    let mut i: usize = 0;
    proof {
        assert forall|l: u32, x: u32|
            #![trigger usage.under(usage_code(l, x))]
            usage.under(usage_code(l, x)) == was.under(usage_code(l, x)) + weights_in(
                *e,
                l,
                x,
                0,
            ) by {
            assert(was.under(usage_code(l, x)) + Seq::<u32>::empty() == was.under(
                usage_code(l, x),
            ));
        }
    }
    while i < n
        invariant
            i <= n,
            n == counted(*e),
            usage.wf(),
            forall|l: u32, x: u32|
                #![trigger usage.under(usage_code(l, x))]
                usage.under(usage_code(l, x)) == was.under(usage_code(l, x)) + weights_in(
                    *e,
                    l,
                    x,
                    i as nat,
                ),
            forall|c: u128|
                (#[trigger] usage.under(c)).len() > 0 ==> was.under(c).len() > 0 || c
                    < 0x1_0000_0000_0000_0000,
        decreases n - i,
    {
        let expert: u32 = e.selected_experts[i];
        let weight: u32 = e.selected_weights[i];
        let code: u128 = e.layer as u128 * 0x1_0000_0000 + expert as u128;
        assert(code == usage_code(e.layer, expert));
        let ghost here = *usage;
        usage.collect(code, weight);
        proof {
            assert forall|l: u32, x: u32|
                #![trigger usage.under(usage_code(l, x))]
                usage.under(usage_code(l, x)) == was.under(usage_code(l, x)) + weights_in(
                    *e,
                    l,
                    x,
                    (i + 1) as nat,
                ) by {
                let before = weights_in(*e, l, x, i as nat);
                assert(here.under(usage_code(l, x)) == was.under(usage_code(l, x)) + before);
                assert(usage_code(l, x) == code ==> l == e.layer && x == expert);
                assert((was.under(usage_code(l, x)) + before).push(weight) == was.under(
                    usage_code(l, x),
                ) + before.push(weight));
            }
            assert forall|c: u128| (#[trigger] usage.under(c)).len() > 0 implies was.under(c).len()
                > 0 || c < 0x1_0000_0000_0000_0000 by {
                if c != code {
                    assert(here.under(c).len() > 0);
                }
            }
        }
        i = i + 1;
    }
}

fn list_usage(usage: Collector, Ghost(events): Ghost<Seq<CalibrationTraceEvent>>) -> (list: Vec<
    ExpertUsage,
>)
    requires
        usage.wf(),
        forall|l: u32, x: u32|
            #![trigger usage.under(usage_code(l, x))]
            usage.under(usage_code(l, x)) == weights_of(events, l, x),
        forall|c: u128| (#[trigger] usage.under(c)).len() > 0 ==> c < 0x1_0000_0000_0000_0000,
    ensures
        is_usage(list@, events),
{
    proof {
        usage.places_are_exact();
    }
    let n: usize = usage.codes.len();
    let mut list: Vec<ExpertUsage> = Vec::new();
    let mut i: usize = 0;
    while i < n
        invariant
            i <= n,
            n == usage.codes@.len(),
            usage.wf(),
            forall|k: int|
                0 <= k < usage.codes@.len() ==> usage.under(#[trigger] usage.codes@[k])
                    == usage.items@[k]@,
            forall|l: u32, x: u32|
                #![trigger usage.under(usage_code(l, x))]
                usage.under(usage_code(l, x)) == weights_of(events, l, x),
            forall|c: u128| (#[trigger] usage.under(c)).len() > 0 ==> c < 0x1_0000_0000_0000_0000,
            list@.len() == i,
            forall|k: int|
                0 <= k < i ==> {
                    &&& usage_code((#[trigger] list@[k]).layer, list@[k].expert)
                        == usage.codes@[k]
                    &&& list@[k].weights@ == weights_of(events, list@[k].layer, list@[k].expert)
                    &&& list@[k].selected_count == list@[k].weights@.len()
                    &&& list@[k].selected_count > 0
                },
        decreases n - i,
    {
        let code: u128 = usage.codes[i];
        assert(usage.under(usage.codes@[i as int]) == usage.items@[i as int]@);
        assert(code < 0x1_0000_0000_0000_0000);
        let layer: u32 = (code / 0x1_0000_0000) as u32;
        let expert: u32 = (code % 0x1_0000_0000) as u32;
        assert(usage_code(layer, expert) == code);
        let weights = usage.items[i].clone();
        assert(weights@ == usage.items@[i as int]@);
        let selected_count: u64 = weights.len() as u64;
        list.push(ExpertUsage { layer, expert, selected_count, weights });
        i = i + 1;
    }
    proof {
        assert forall|a: int, b: int| 0 <= a < b < list@.len() implies ({
            let (p, q) = (#[trigger] list@[a], #[trigger] list@[b]);
            p.layer < q.layer || (p.layer == q.layer && p.expert < q.expert)
        }) by {
            assert(usage.codes@[a] < usage.codes@[b]);
        }
        assert forall|layer: u32, expert: u32|
            (#[trigger] weights_of(events, layer, expert)).len() > 0 implies exists|k: int|
            0 <= k < list@.len() && (#[trigger] list@[k]).layer == layer && list@[k].expert
                == expert by {
            let c = usage_code(layer, expert);
            assert(usage.under(c).len() > 0);
            assert(usage.codes@.contains(c));
            let k = choose|k: int| 0 <= k < usage.codes@.len() && usage.codes@[k] == c;
            assert(usage_code(list@[k].layer, list@[k].expert) == c);
        }
    }
    list
}

fn list_layers(layers: Counter, Ghost(events): Ghost<Seq<CalibrationTraceEvent>>) -> (list: Vec<
    LayerEventCount,
>)
    requires
        layers.wf(),
        forall|l: u32|
            #![trigger layers.count(l as u128)]
            layers.count(l as u128) == layer_events(events, l),
        forall|c: u128| (#[trigger] layers.count(c)) > 0 ==> c <= u32::MAX,
    ensures
        is_layer_counts(list@, events),
{
    proof {
        layers.places_are_exact();
    }
    let n: usize = layers.codes.len();
    let mut list: Vec<LayerEventCount> = Vec::new();
    let mut i: usize = 0;
    while i < n
        invariant
            i <= n,
            n == layers.codes@.len(),
            layers.wf(),
            forall|k: int|
                0 <= k < layers.codes@.len() ==> layers.count(#[trigger] layers.codes@[k])
                    == layers.counts@[k],
            forall|l: u32|
                #![trigger layers.count(l as u128)]
                layers.count(l as u128) == layer_events(events, l),
            forall|c: u128| (#[trigger] layers.count(c)) > 0 ==> c <= u32::MAX,
            list@.len() == i,
            forall|k: int|
                0 <= k < i ==> {
                    &&& (#[trigger] list@[k]).layer == layers.codes@[k]
                    &&& list@[k].count == layer_events(events, list@[k].layer)
                    &&& list@[k].count > 0
                },
        decreases n - i,
    {
        let code: u128 = layers.codes[i];
        assert(layers.count(layers.codes@[i as int]) == layers.counts@[i as int]);
        let layer: u32 = code as u32;
        assert(layer as u128 == code);
        assert(layers.count(layer as u128) == layer_events(events, layer));
        list.push(LayerEventCount { layer, count: layers.counts[i] });
        i = i + 1;
    }
    proof {
        assert forall|a: int, b: int| 0 <= a < b < list@.len() implies (#[trigger] list@[a]).layer
            < (#[trigger] list@[b]).layer by {
            assert(layers.codes@[a] < layers.codes@[b]);
        }
        assert forall|layer: u32| (#[trigger] layer_events(events, layer)) > 0 implies exists|
            k: int,
        |
            0 <= k < list@.len() && (#[trigger] list@[k]).layer == layer by {
            let c = layer as u128;
            assert(layers.count(layer as u128) > 0);
            assert(layers.codes@.contains(c));
            let k = choose|k: int| 0 <= k < layers.codes@.len() && layers.codes@[k] == c;
            assert(list@[k].layer == layer);
        }
    }
    list
}

fn list_pairs(pairs: Counter, Ghost(events): Ghost<Seq<CalibrationTraceEvent>>) -> (list: Vec<
    PairCount,
>)
    requires
        pairs.wf(),
        forall|l: u32, a: u32, b: u32|
            #![trigger pairs.count(pair_code(l, a, b))]
            pairs.count(pair_code(l, a, b)) == pair_events(events, l, a, b),
        forall|c: u128| (#[trigger] pairs.count(c)) > 0 ==> c < 0x1_0000_0000_0000_0000_0000_0000,
    ensures
        pairs_are_exact(list@, events),
        forall|i: int, j: int|
            0 <= i < j < list@.len() ==> {
                let (p, q) = (#[trigger] list@[i], #[trigger] list@[j]);
                pair_code(p.layer, p.expert_a, p.expert_b) < pair_code(
                    q.layer,
                    q.expert_a,
                    q.expert_b,
                )
            },
{
    proof {
        pairs.places_are_exact();
    }
    let n: usize = pairs.codes.len();
    let mut list: Vec<PairCount> = Vec::new();
    let mut i: usize = 0;
    while i < n
        invariant
            i <= n,
            n == pairs.codes@.len(),
            pairs.wf(),
            forall|k: int|
                0 <= k < pairs.codes@.len() ==> pairs.count(#[trigger] pairs.codes@[k])
                    == pairs.counts@[k],
            forall|l: u32, a: u32, b: u32|
                #![trigger pairs.count(pair_code(l, a, b))]
                pairs.count(pair_code(l, a, b)) == pair_events(events, l, a, b),
            forall|c: u128|
                (#[trigger] pairs.count(c)) > 0 ==> c < 0x1_0000_0000_0000_0000_0000_0000,
            list@.len() == i,
            forall|k: int|
                0 <= k < i ==> {
                    &&& pair_code(
                        (#[trigger] list@[k]).layer,
                        list@[k].expert_a,
                        list@[k].expert_b,
                    ) == pairs.codes@[k]
                    &&& list@[k].co_count == pair_events(
                        events,
                        list@[k].layer,
                        list@[k].expert_a,
                        list@[k].expert_b,
                    )
                    &&& list@[k].co_count > 0
                },
        decreases n - i,
    {
        let code: u128 = pairs.codes[i];
        assert(pairs.count(pairs.codes@[i as int]) == pairs.counts@[i as int]);
        assert(code < 0x1_0000_0000_0000_0000_0000_0000);
        let layer: u32 = (code / 0x1_0000_0000_0000_0000) as u32;
        let rest: u128 = code % 0x1_0000_0000_0000_0000;
        let expert_a: u32 = (rest / 0x1_0000_0000) as u32;
        let expert_b: u32 = (rest % 0x1_0000_0000) as u32;
        assert(pair_code(layer, expert_a, expert_b) == code);
        assert(pairs.count(pair_code(layer, expert_a, expert_b)) == pair_events(
            events,
            layer,
            expert_a,
            expert_b,
        ));
        list.push(PairCount { layer, expert_a, expert_b, co_count: pairs.counts[i] });
        i = i + 1;
    }
    proof {
        assert forall|a: int, b: int| 0 <= a < b < list@.len() implies ({
            let (p, q) = (#[trigger] list@[a], #[trigger] list@[b]);
            pair_code(p.layer, p.expert_a, p.expert_b) < pair_code(q.layer, q.expert_a, q.expert_b)
        }) by {
            assert(pairs.codes@[a] < pairs.codes@[b]);
        }
        assert forall|layer: u32, a: u32, b: u32|
            (#[trigger] pair_events(events, layer, a, b)) > 0 implies exists|k: int|
            0 <= k < list@.len() && (#[trigger] list@[k]).layer == layer && list@[k].expert_a == a
                && list@[k].expert_b == b by {
            let c = pair_code(layer, a, b);
            assert(pairs.count(pair_code(layer, a, b)) > 0);
            assert(pairs.codes@.contains(c));
            let k = choose|k: int| 0 <= k < pairs.codes@.len() && pairs.codes@[k] == c;
            assert(pair_code(list@[k].layer, list@[k].expert_a, list@[k].expert_b) == c);
        }
    }
    list
}

spec fn pair_keys(list: Seq<PairCount>) -> Seq<i128> {
    list.map_values(|p: PairCount| (p.layer * 0x1_0000_0000_0000_0000 - p.co_count) as i128)
}

fn order_pairs(list: Vec<PairCount>, Ghost(events): Ghost<Seq<CalibrationTraceEvent>>) -> (sorted:
    Vec<PairCount>)
    requires
        pairs_are_exact(list@, events),
        forall|i: int, j: int|
            0 <= i < j < list@.len() ==> {
                let (p, q) = (#[trigger] list@[i], #[trigger] list@[j]);
                pair_code(p.layer, p.expert_a, p.expert_b) < pair_code(
                    q.layer,
                    q.expert_a,
                    q.expert_b,
                )
            },
    ensures
        is_pairs(sorted@, events),
{
    let mut keys: Vec<i128> = Vec::new();
    let mut i: usize = 0;
    while i < list.len()
        invariant
            i <= list@.len(),
            keys@ == pair_keys(list@).take(i as int),
        decreases list@.len() - i,
    {
        let p = list[i];
        let key: i128 = p.layer as i128 * 0x1_0000_0000_0000_0000 - p.co_count as i128;
        keys.push(key);
        assert(pair_keys(list@).take(i + 1) == pair_keys(list@).take(i as int).push(key));
        i = i + 1;
    }
    assert(pair_keys(list@).take(i as int) == pair_keys(list@));
    let ids = rank::order_of(keys.as_slice());
    let mut sorted: Vec<PairCount> = Vec::new();
    let mut j: usize = 0;
    while j < ids.len()
        invariant
            j <= ids@.len(),
            rank::is_order(ids@, pair_keys(list@)),
            sorted@.len() == j,
            forall|k: int| 0 <= k < j ==> #[trigger] sorted@[k] == list@[ids@[k] as int],
        decreases ids@.len() - j,
    {
        assert(ids@[j as int] < pair_keys(list@).len());
        sorted.push(list[ids[j]]);
        j = j + 1;
    }
    proof {
        let keys = pair_keys(list@);
        assert forall|a: int, b: int| 0 <= a < b < sorted@.len() implies pair_before(
            #[trigger] sorted@[a],
            #[trigger] sorted@[b],
        ) by {
            let (x, y) = (ids@[a] as int, ids@[b] as int);
            assert(rank::before(keys, x, y));
            assert(x < list@.len() && y < list@.len());
            let (p, q) = (list@[x], list@[y]);
            assert(keys[x] == p.layer * 0x1_0000_0000_0000_0000 - p.co_count);
            assert(keys[y] == q.layer * 0x1_0000_0000_0000_0000 - q.co_count);
            if keys[x] == keys[y] {
                assert(pair_code(p.layer, p.expert_a, p.expert_b) < pair_code(
                    q.layer,
                    q.expert_a,
                    q.expert_b,
                ));
            }
        }
        assert forall|k: int| 0 <= k < sorted@.len() implies ({
            &&& (#[trigger] sorted@[k]).co_count == pair_events(
                events,
                sorted@[k].layer,
                sorted@[k].expert_a,
                sorted@[k].expert_b,
            )
            &&& sorted@[k].co_count > 0
        }) by {
            assert(ids@[k] < keys.len());
            assert(sorted@[k] == list@[ids@[k] as int]);
        }
        assert forall|layer: u32, a: u32, b: u32|
            (#[trigger] pair_events(events, layer, a, b)) > 0 implies exists|k: int|
            0 <= k < sorted@.len() && (#[trigger] sorted@[k]).layer == layer
                && sorted@[k].expert_a == a && sorted@[k].expert_b == b by {
            let x = choose|x: int|
                0 <= x < list@.len() && (#[trigger] list@[x]).layer == layer && list@[x].expert_a
                    == a && list@[x].expert_b == b;
            rank::order_is_complete(ids@, keys, x as usize);
            let k = choose|k: int| 0 <= k < ids@.len() && ids@[k] == x as usize;
            assert(sorted@[k] == list@[x]);
        }
    }
    sorted
}

/// Counts what a trace says.
pub fn count_trace(events: &[CalibrationTraceEvent]) -> (c: CalibrationCounts)
    ensures
        is_usage(c.usage@, events@),
        is_layer_counts(c.layer_event_counts@, events@),
        is_pairs(c.pairs@, events@),
        c.total_events == all_events(events@),
{
    let n: usize = events.len();
    let mut usage = Collector::new();
    let mut layers = Counter::new();
    let mut pairs = Counter::new();
    let mut total: u64 = 0;
    let mut i: usize = 0;
    assert(events@.take(0) == Seq::<CalibrationTraceEvent>::empty());
    while i < n
        invariant
            i <= n,
            n == events@.len(),
            usage.wf(),
            layers.wf(),
            pairs.wf(),
            total == all_events(events@.take(i as int)),
            forall|l: u32, x: u32|
                #![trigger usage.under(usage_code(l, x))]
                usage.under(usage_code(l, x)) == weights_of(events@.take(i as int), l, x),
            forall|c: u128|
                (#[trigger] usage.under(c)).len() > 0 ==> c < 0x1_0000_0000_0000_0000,
            forall|l: u32|
                #![trigger layers.count(l as u128)]
                layers.count(l as u128) == layer_events(events@.take(i as int), l),
            forall|c: u128| (#[trigger] layers.count(c)) > 0 ==> c <= u32::MAX,
            forall|l: u32, a: u32, b: u32|
                #![trigger pairs.count(pair_code(l, a, b))]
                pairs.count(pair_code(l, a, b)) == pair_events(events@.take(i as int), l, a, b),
            forall|c: u128|
                (#[trigger] pairs.count(c)) > 0 ==> c < 0x1_0000_0000_0000_0000_0000_0000,
        decreases n - i,
    {
        let e = &events[i];
        let ghost before = events@.take(i as int);
        let ghost after = events@.take(i + 1);
        proof {
            assert(after.drop_last() == before);
            assert(after.last() == *e);
            assert forall|c: u128| #[trigger] pairs.count(c) < u64::MAX by {
                if pairs.count(c) > 0 {
                    let layer = (c / 0x1_0000_0000_0000_0000) as u32;
                    let rest = c % 0x1_0000_0000_0000_0000;
                    let (a, b) = ((rest / 0x1_0000_0000) as u32, (rest % 0x1_0000_0000) as u32);
                    assert(pair_code(layer, a, b) == c);
                    assert(pairs.count(pair_code(layer, a, b)) == pair_events(before, layer, a, b));
                    counts_are_bounded(before, layer, a, b);
                }
            }
            counts_are_bounded(before, e.layer, 0, 0);
            assert(layers.count(e.layer as u128) == layer_events(before, e.layer));
        }
        let count: usize = if e.selected_experts.len() <= e.selected_weights.len() {
            e.selected_experts.len()
        } else {
            e.selected_weights.len()
        };
        if count > 0 {
            total = total + 1;
            let ghost (was_layers, was_usage, was_pairs) = (layers, usage, pairs);
            layers.bump(e.layer as u128);
            collect_weights(&mut usage, e, count);
            let v = distinct_experts(e, count);
            count_pairs(&mut pairs, e.layer, &v);
            proof {
                assert forall|l: u32|
                    #![trigger layers.count(l as u128)]
                    layers.count(l as u128) == layer_events(after, l) by {
                    assert(was_layers.count(l as u128) == layer_events(before, l));
                }
                assert forall|c: u128| (#[trigger] layers.count(c)) > 0 implies c <= u32::MAX by {
                    if c != e.layer as u128 {
                        assert(was_layers.count(c) > 0);
                    }
                }
                assert forall|l: u32, x: u32|
                    #![trigger usage.under(usage_code(l, x))]
                    usage.under(usage_code(l, x)) == weights_of(after, l, x) by {
                    assert(was_usage.under(usage_code(l, x)) == weights_of(before, l, x));
                }
                assert forall|l: u32, a: u32, b: u32|
                    #![trigger pairs.count(pair_code(l, a, b))]
                    pairs.count(pair_code(l, a, b)) == pair_events(after, l, a, b) by {
                    assert(was_pairs.count(pair_code(l, a, b)) == pair_events(before, l, a, b));
                    assert(v@.contains(a) <==> e.selected_experts@.take(count as int).contains(a));
                    assert(v@.contains(b) <==> e.selected_experts@.take(count as int).contains(b));
                }
            }
        } else {
            proof {
                assert forall|l: u32, x: u32|
                    #![trigger usage.under(usage_code(l, x))]
                    usage.under(usage_code(l, x)) == weights_of(after, l, x) by {
                    assert(weights_of(before, l, x) + Seq::<u32>::empty() == weights_of(
                        before,
                        l,
                        x,
                    ));
                }
                assert forall|l: u32, a: u32, b: u32|
                    #![trigger pairs.count(pair_code(l, a, b))]
                    pairs.count(pair_code(l, a, b)) == pair_events(after, l, a, b) by {
                    assert(e.selected_experts@.take(0).len() == 0);
                }
            }
        }
        i = i + 1;
    }
    assert(events@.take(i as int) == events@);
    let listed = list_pairs(pairs, Ghost(events@));
    CalibrationCounts {
        usage: list_usage(usage, Ghost(events@)),
        layer_event_counts: list_layers(layers, Ghost(events@)),
        pairs: order_pairs(listed, Ghost(events@)),
        total_events: total,
    }
}

/// An expert that was selected belongs to a layer in which something was.
pub proof fn selections_need_events(events: Seq<CalibrationTraceEvent>, layer: u32, expert: u32)
    ensures
        weights_of(events, layer, expert).len() > 0 ==> layer_events(events, layer) > 0,
    decreases events.len(),
{
    if events.len() > 0 {
        selections_need_events(events.drop_last(), layer, expert);
        let e = events.last();
        lemma_weights_in(e, layer, expert, counted(e));
    }
}

proof fn lemma_weights_in(e: CalibrationTraceEvent, layer: u32, expert: u32, n: nat)
    ensures
        weights_in(e, layer, expert, n).len() <= n,
        weights_in(e, layer, expert, n).len() > 0 ==> e.layer == layer,
    decreases n,
{
    if n > 0 {
        lemma_weights_in(e, layer, expert, (n - 1) as nat);
    }
}

// ---------------------------------------------------------------------------
// Tiers
// ---------------------------------------------------------------------------

/// How many of `n` experts are hot: a tenth, rounded up.
pub open spec fn hot_count(n: nat) -> nat {
    (n + 9) / 10
}

/// How many of `n` experts are hot or warm: four tenths, rounded up.
pub open spec fn warm_cutoff(n: nat) -> nat {
    (4 * n + 9) / 10
}

/// The tier of the expert with the given rank among `n`, counted from zero.
pub open spec fn tier_at(rank: nat, n: nat) -> ExpertTier {
    if rank < hot_count(n) {
        ExpertTier::Hot
    } else if rank < warm_cutoff(n) {
        ExpertTier::Warm
    } else {
        ExpertTier::Cold
    }
}

/// Where there are experts at least one is hot, and no tier takes more than there
/// are.
pub proof fn tiers_are_nested(n: nat)
    requires
        n > 0,
    ensures
        0 < hot_count(n) <= warm_cutoff(n) <= n,
        tier_at(0, n) == ExpertTier::Hot,
{
}

/// Expert `a` ranks above expert `b`: its layer comes first, or it is in the same
/// layer and matters more, or as much and comes first.
pub open spec fn ranks_above(layers: Seq<u32>, importance: Seq<u64>, a: int, b: int) -> bool {
    layers[a] < layers[b] || (layers[a] == layers[b] && (ieee::less64(importance[b], importance[a])
        || (!ieee::less64(importance[a], importance[b]) && a < b)))
}

/// How many of the first `n` members of `v` equal `x`.
pub open spec fn occurrences(v: Seq<u32>, x: u32, n: nat) -> nat
    decreases n,
{
    if n == 0 {
        0
    } else {
        occurrences(v, x, (n - 1) as nat) + if v[n - 1] == x {
            1nat
        } else {
            0
        }
    }
}

/// An expert with its tier.
#[derive(Debug, Clone, Copy, PartialEq, Eq, Structural)]
pub struct RankedExpert {
    pub index: usize,
    pub tier: ExpertTier,
}

/// The layers of experts in their order.
pub open spec fn ranked_layers(ranked: Seq<RankedExpert>, layers: Seq<u32>) -> Seq<u32> {
    ranked.map_values(|r: RankedExpert| layers[r.index as int])
}

/// The experts are listed by layer, within a layer the one that matters most
/// first, each with the tier of its rank in the layer.
pub open spec fn is_tiered(
    ranked: Seq<RankedExpert>,
    layers: Seq<u32>,
    importance: Seq<u64>,
) -> bool {
    let by_rank = ranked_layers(ranked, layers);
    &&& ranked.len() == layers.len()
    &&& forall|i: int| 0 <= i < ranked.len() ==> (#[trigger] ranked[i]).index < layers.len()
    &&& forall|i: int, j: int|
        0 <= i < j < ranked.len() ==> ranks_above(
            layers,
            importance,
            (#[trigger] ranked[i]).index as int,
            (#[trigger] ranked[j]).index as int,
        )
    &&& forall|i: int|
        0 <= i < ranked.len() ==> (#[trigger] ranked[i]).tier == tier_at(
            occurrences(by_rank, by_rank[i], i as nat),
            occurrences(by_rank, by_rank[i], ranked.len()),
        )
}

/// In an ascending list the members that equal `x` stand together.
proof fn lemma_run(v: Seq<u32>, x: u32, start: int, n: int)
    requires
        0 <= start <= n <= v.len(),
        forall|k: int| 0 <= k < start ==> #[trigger] v[k] != x,
        forall|k: int| start <= k < n ==> #[trigger] v[k] == x,
    ensures
        occurrences(v, x, n as nat) == n - start,
    decreases n,
{
    if n > start {
        lemma_run(v, x, start, n - 1);
    } else if n > 0 {
        assert(v[n - 1] != x);
        lemma_run(v, x, start - 1, n - 1);
    }
}

/// Members that differ from `x` do not count.
proof fn lemma_tail(v: Seq<u32>, x: u32, end: int, n: int)
    requires
        0 <= end <= n <= v.len(),
        forall|k: int| end <= k < n ==> #[trigger] v[k] != x,
    ensures
        occurrences(v, x, n as nat) == occurrences(v, x, end as nat),
    decreases n - end,
{
    if n > end {
        lemma_tail(v, x, end, n - 1);
    }
}

fn order_experts(layers: &[u32], importance: &[u64]) -> (ids: Vec<usize>)
    requires
        layers@.len() == importance@.len(),
        rank::all_numbers64(importance@),
    ensures
        ids@.len() == layers@.len(),
        forall|i: int| 0 <= i < ids@.len() ==> #[trigger] ids@[i] < layers@.len(),
        forall|i: int, j: int|
            0 <= i < j < ids@.len() ==> ranks_above(
                layers@,
                importance@,
                #[trigger] ids@[i] as int,
                #[trigger] ids@[j] as int,
            ),
{
    let mut keys: Vec<i128> = Vec::new();
    let mut i: usize = 0;
    while i < layers.len()
        invariant
            i <= layers@.len(),
            layers@.len() == importance@.len(),
            keys@.len() == i,
            forall|k: int|
                0 <= k < i ==> #[trigger] keys@[k] == layers@[k] * 0x4_0000_0000_0000_0000
                    - ieee::key64(importance@[k]),
        decreases layers@.len() - i,
    {
        let b: u64 = importance[i];
        let size: i128 = if b < 0x8000_0000_0000_0000 {
            b as i128
        } else {
            0x8000_0000_0000_0000 - b as i128
        };
        keys.push(layers[i] as i128 * 0x4_0000_0000_0000_0000 - size);
        i = i + 1;
    }
    let ids = rank::order_of(keys.as_slice());
    proof {
        assert forall|a: int, b: int| 0 <= a < b < ids@.len() implies ranks_above(
            layers@,
            importance@,
            #[trigger] ids@[a] as int,
            #[trigger] ids@[b] as int,
        ) by {
            let (x, y) = (ids@[a] as int, ids@[b] as int);
            assert(rank::before(keys@, x, y));
            assert(keys@[x] == layers@[x] * 0x4_0000_0000_0000_0000 - ieee::key64(importance@[x]));
            assert(keys@[y] == layers@[y] * 0x4_0000_0000_0000_0000 - ieee::key64(importance@[y]));
            assert(!ieee::is_nan64(importance@[x]) && !ieee::is_nan64(importance@[y]));
        }
    }
    ids
}

/// Ranks experts within their layers and gives each its tier.
pub fn assign_tiers(layers: &[u32], importance: &[u64]) -> (ranked: Vec<RankedExpert>)
    requires
        layers@.len() == importance@.len(),
        rank::all_numbers64(importance@),
    ensures
        is_tiered(ranked@, layers@, importance@),
{
    let ids = order_experts(layers, importance);
    let n: usize = ids.len();
    let ghost v = ids@.map_values(|i: usize| layers@[i as int]);
    proof {
        assert forall|a: int, b: int| 0 <= a < b < v.len() implies #[trigger] v[a]
            <= #[trigger] v[b] by {
            assert(ranks_above(layers@, importance@, ids@[a] as int, ids@[b] as int));
        }
    }
    let mut ranked: Vec<RankedExpert> = Vec::new();
    let mut i: usize = 0;
    while i < n
        invariant
            i <= n,
            n == ids@.len(),
            n == layers@.len(),
            v == ids@.map_values(|i: usize| layers@[i as int]),
            forall|k: int| 0 <= k < n ==> #[trigger] ids@[k] < layers@.len(),
            forall|a: int, b: int| 0 <= a < b < v.len() ==> #[trigger] v[a] <= #[trigger] v[b],
            i < n && i > 0 ==> v[i - 1] < v[i as int],
            ranked@.len() == i,
            forall|k: int|
                0 <= k < i ==> {
                    &&& (#[trigger] ranked@[k]).index == ids@[k]
                    &&& ranked@[k].tier == tier_at(
                        occurrences(v, v[k], k as nat),
                        occurrences(v, v[k], n as nat),
                    )
                },
        decreases n - i,
    {
        let start: usize = i;
        assert(ids@[start as int] < layers@.len());
        let layer: u32 = layers[ids[start]];
        let mut end: usize = start + 1;
        while end < n && layers[ids[end]] == layer
            invariant
                start < end <= n,
                n == ids@.len(),
                v == ids@.map_values(|i: usize| layers@[i as int]),
                forall|k: int| 0 <= k < n ==> #[trigger] ids@[k] < layers@.len(),
                layer == v[start as int],
                forall|k: int| start <= k < end ==> #[trigger] v[k] == layer,
            decreases n - end,
        {
            assert(v[end as int] == layers@[ids@[end as int] as int]);
            end = end + 1;
        }
        let size: usize = end - start;
        let hot: usize = (size - 1) / 10 + 1;
        let warm: usize = ((4 * size as u128 + 9) / 10) as usize;
        proof {
            assert forall|k: int| 0 <= k < start implies #[trigger] v[k] != layer by {
                if k < start - 1 {
                    assert(v[k] <= v[start - 1]);
                }
            }
            if end < n {
                assert(v[end as int] == layers@[ids@[end as int] as int]);
                assert(v[start as int] <= v[end as int]);
            }
            assert forall|k: int| end <= k < n implies #[trigger] v[k] != layer by {
                if k > end {
                    assert(v[end as int] <= v[k]);
                }
            }
            lemma_run(v, layer, start as int, end as int);
            lemma_tail(v, layer, end as int, n as int);
        }
        while i < end
            invariant
                start <= i <= end <= n,
                n == ids@.len(),
                size == end - start,
                hot == hot_count(size as nat),
                warm == warm_cutoff(size as nat),
                forall|k: int| 0 <= k < start ==> #[trigger] v[k] != layer,
                forall|k: int| start <= k < end ==> #[trigger] v[k] == layer,
                v.len() == n,
                occurrences(v, layer, n as nat) == size,
                ranked@.len() == i,
                forall|k: int|
                    0 <= k < i ==> {
                        &&& (#[trigger] ranked@[k]).index == ids@[k]
                        &&& ranked@[k].tier == tier_at(
                            occurrences(v, v[k], k as nat),
                            occurrences(v, v[k], n as nat),
                        )
                    },
            decreases end - i,
        {
            let place: usize = i - start;
            proof {
                lemma_run(v, layer, start as int, i as int);
                assert(v[i as int] == layer);
            }
            let tier = if place < hot {
                ExpertTier::Hot
            } else if place < warm {
                ExpertTier::Warm
            } else {
                ExpertTier::Cold
            };
            ranked.push(RankedExpert { index: ids[i], tier });
            i = i + 1;
        }
        proof {
            if i < n {
                assert(v[i - 1] <= v[i as int]);
            }
        }
    }
    assert(ranked_layers(ranked@, layers@) == v);
    ranked
}

/// Within a layer the tiers follow the importance: an expert never has a lower
/// tier than one that ranks below it.
pub proof fn tiers_follow_ranks(rank: nat, lower: nat, n: nat)
    requires
        rank <= lower,
    ensures
        tier_at(lower, n) == ExpertTier::Hot ==> tier_at(rank, n) == ExpertTier::Hot,
        tier_at(lower, n) == ExpertTier::Warm ==> tier_at(rank, n) != ExpertTier::Cold,
{
}

// ---------------------------------------------------------------------------
// Laws of tiers
// ---------------------------------------------------------------------------

/// The listed experts of a layer that have a tier.
pub open spec fn tier_members(
    ranked: Seq<RankedExpert>,
    layers: Seq<u32>,
    layer: u32,
    tier: ExpertTier,
) -> Seq<RankedExpert> {
    ranked.filter(|r: RankedExpert| layers[r.index as int] == layer && r.tier == tier)
}

/// How many experts a layer has.
pub open spec fn layer_size(layers: Seq<u32>, layer: u32) -> nat {
    layers.filter(|l: u32| l == layer).len()
}

/// `least` is the least number that is not below `share` tenths of `n`.
pub open spec fn least_tenths(least: nat, share: nat, n: nat) -> bool {
    10 * least >= share * n && (least > 0 ==> 10 * (least - 1) < share * n)
}

/// Every expert is listed, once.
pub proof fn every_expert_is_ranked(
    ranked: Seq<RankedExpert>,
    layers: Seq<u32>,
    importance: Seq<u64>,
    e: usize,
)
    requires
        is_tiered(ranked, layers, importance),
        e < layers.len(),
    ensures
        exists|i: int| 0 <= i < ranked.len() && (#[trigger] ranked[i]).index == e,
        forall|i: int, j: int|
            0 <= i < j < ranked.len() ==> (#[trigger] ranked[i]).index != (
            #[trigger] ranked[j]).index,
{
    let ids = ranked.map_values(|r: RankedExpert| r.index);
    assert forall|i: int, j: int| 0 <= i < j < ranked.len() implies (#[trigger] ranked[i]).index
        != (#[trigger] ranked[j]).index by {
        assert(ranks_above(layers, importance, ranked[i].index as int, ranked[j].index as int));
    }
    assert(ids.no_duplicates()) by {
        assert forall|i: int, j: int| 0 <= i < ids.len() && 0 <= j < ids.len() && i != j implies
            ids[i] != ids[j] by {
            if i < j {
                assert(ranked[i].index != ranked[j].index);
            } else {
                assert(ranked[j].index != ranked[i].index);
            }
        }
    }
    assert forall|i: int| 0 <= i < ids.len() implies #[trigger] ids[i] < layers.len() by {
        assert(ranked[i].index < layers.len());
    }
    rank::lemma_all_places(ids, layers.len(), e);
    let i = choose|i: int| 0 <= i < ids.len() && ids[i] == e;
    assert(ranked[i].index == e);
}

/// The places below `n` that hold `x`.
spec fn places_of(v: Seq<u32>, x: u32, n: int) -> Set<int> {
    set_int_range(0, n).filter(|i: int| v[i] == x)
}

proof fn lemma_occurrences_are_places(v: Seq<u32>, x: u32, n: nat)
    requires
        n <= v.len(),
    ensures
        places_of(v, x, n as int).finite(),
        places_of(v, x, n as int).len() == occurrences(v, x, n),
        layer_size(v.take(n as int), x) == occurrences(v, x, n),
    decreases n,
{
    reveal(Seq::filter);
    lemma_int_range(0, n as int);
    set_int_range(0, n as int).lemma_len_filter(|i: int| v[i] == x);
    if n == 0 {
        assert(places_of(v, x, 0) =~= Set::<int>::empty());
    } else {
        let m = (n - 1) as nat;
        lemma_occurrences_are_places(v, x, m);
        assert(v.take(n as int).drop_last() == v.take(m as int));
        let (less, all) = (places_of(v, x, m as int), places_of(v, x, n as int));
        if v[m as int] == x {
            assert(all =~= less.insert(m as int));
        } else {
            assert(all =~= less);
        }
    }
}

/// The list holds as many experts of a layer as there are.
proof fn lemma_layers_are_kept(
    ranked: Seq<RankedExpert>,
    layers: Seq<u32>,
    importance: Seq<u64>,
    x: u32,
)
    requires
        is_tiered(ranked, layers, importance),
        layers.len() <= usize::MAX,
    ensures
        occurrences(ranked_layers(ranked, layers), x, ranked.len()) == layer_size(layers, x),
{
    let v = ranked_layers(ranked, layers);
    let n = ranked.len();
    lemma_occurrences_are_places(v, x, n);
    lemma_occurrences_are_places(layers, x, n);
    assert(layers.take(n as int) == layers);
    let (from, to) = (places_of(v, x, n as int), places_of(layers, x, n as int));
    let f = |i: int| ranked[i].index as int;
    assert(injective_on(f, from)) by {
        assert forall|i: int, j: int| from.contains(i) && from.contains(j) && f(i) == f(
            j,
        ) implies i == j by {
            every_expert_is_ranked(ranked, layers, importance, ranked[0].index);
            if i < j {
                assert(ranked[i].index != ranked[j].index);
            } else if j < i {
                assert(ranked[j].index != ranked[i].index);
            }
        }
    }
    assert(from.map(f) =~= to) by {
        assert forall|e: int| to.contains(e) implies from.map(f).contains(e) by {
            every_expert_is_ranked(ranked, layers, importance, e as usize);
            let i = choose|i: int| 0 <= i < ranked.len() && (#[trigger] ranked[i]).index == e;
            assert(v[i] == layers[e]);
            assert(from.contains(i) && f(i) == e);
        }
        assert forall|e: int| from.map(f).contains(e) implies to.contains(e) by {
            let i = choose|i: int| from.contains(i) && f(i) == e;
            assert(ranked[i].index < layers.len());
            assert(v[i] == layers[e]);
        }
    }
    lemma_map_size(from, to, f);
}

/// Of the first `k` listed experts those of the layer that are hot, and those that
/// are hot or warm.
proof fn lemma_tiers_fill_up(
    ranked: Seq<RankedExpert>,
    layers: Seq<u32>,
    importance: Seq<u64>,
    x: u32,
    k: nat,
)
    requires
        is_tiered(ranked, layers, importance),
        k <= ranked.len(),
    ensures
        ({
            let v = ranked_layers(ranked, layers);
            let (n, seen) = (occurrences(v, x, ranked.len()), occurrences(v, x, k));
            let front = ranked.take(k as int);
            let hot = tier_members(front, layers, x, ExpertTier::Hot).len();
            let warm = tier_members(front, layers, x, ExpertTier::Warm).len();
            let cold = tier_members(front, layers, x, ExpertTier::Cold).len();
            &&& hot == if seen < hot_count(n) {
                seen
            } else {
                hot_count(n)
            }
            &&& hot + warm == if seen < warm_cutoff(n) {
                seen
            } else {
                warm_cutoff(n)
            }
            &&& hot + warm + cold == seen
        }),
    decreases k,
{
    reveal(Seq::filter);
    let v = ranked_layers(ranked, layers);
    if k > 0 {
        let j = k - 1;
        lemma_tiers_fill_up(ranked, layers, importance, x, j as nat);
        assert(ranked.take(k as int).drop_last() == ranked.take(j));
        assert(ranked.take(k as int).last() == ranked[j]);
        assert(v[j] == layers[ranked[j].index as int]);
        let n = occurrences(v, x, ranked.len());
        if v[j] == x {
            assert(ranked[j].tier == tier_at(occurrences(v, x, j as nat), n));
        }
    }
}

/// Of the `n` experts of a layer the hot ones are the least number that is not
/// below a tenth of `n`, those that are hot or warm the least number that is not
/// below four tenths of `n`, and all others are cold.
pub proof fn tiers_are_tenths(
    ranked: Seq<RankedExpert>,
    layers: Seq<u32>,
    importance: Seq<u64>,
    layer: u32,
)
    requires
        is_tiered(ranked, layers, importance),
        layers.len() <= usize::MAX,
    ensures
        ({
            let n = layer_size(layers, layer);
            let hot = tier_members(ranked, layers, layer, ExpertTier::Hot).len();
            let warm = tier_members(ranked, layers, layer, ExpertTier::Warm).len();
            let cold = tier_members(ranked, layers, layer, ExpertTier::Cold).len();
            &&& least_tenths(hot, 1, n)
            &&& least_tenths(hot + warm, 4, n)
            &&& hot + warm + cold == n
        }),
{
    lemma_layers_are_kept(ranked, layers, importance, layer);
    lemma_tiers_fill_up(ranked, layers, importance, layer, ranked.len());
    assert(ranked.take(ranked.len() as int) == ranked);
}

/// Of two experts of a layer the one that is listed first matters at least as
/// much, and has the hotter tier or the same.
pub proof fn tiers_follow_importance(
    ranked: Seq<RankedExpert>,
    layers: Seq<u32>,
    importance: Seq<u64>,
    i: int,
    j: int,
)
    requires
        is_tiered(ranked, layers, importance),
        0 <= i < j < ranked.len(),
        layers[ranked[i].index as int] == layers[ranked[j].index as int],
    ensures
        !ieee::less64(importance[ranked[i].index as int], importance[ranked[j].index as int]),
        ranked[j].tier == ExpertTier::Hot ==> ranked[i].tier == ExpertTier::Hot,
        ranked[i].tier == ExpertTier::Cold ==> ranked[j].tier == ExpertTier::Cold,
{
    assert(ranks_above(layers, importance, ranked[i].index as int, ranked[j].index as int));
    let v = ranked_layers(ranked, layers);
    assert(v[i] == v[j]);
    lemma_occurrences_grow(v, v[i], i as nat, j as nat);
    tiers_follow_ranks(
        occurrences(v, v[i], i as nat),
        occurrences(v, v[i], j as nat),
        occurrences(v, v[i], ranked.len()),
    );
}

proof fn lemma_occurrences_grow(v: Seq<u32>, x: u32, a: nat, b: nat)
    requires
        a <= b,
    ensures
        occurrences(v, x, a) <= occurrences(v, x, b),
    decreases b - a,
{
    if a < b {
        lemma_occurrences_grow(v, x, a, (b - 1) as nat);
    }
}

/// An expert that matters more than another of its layer is listed before it.
pub proof fn what_matters_more_comes_first(
    ranked: Seq<RankedExpert>,
    layers: Seq<u32>,
    importance: Seq<u64>,
    i: int,
    j: int,
)
    requires
        is_tiered(ranked, layers, importance),
        0 <= i < ranked.len(),
        0 <= j < ranked.len(),
        layers[ranked[i].index as int] == layers[ranked[j].index as int],
        ieee::less64(importance[ranked[j].index as int], importance[ranked[i].index as int]),
    ensures
        i < j,
{
    if j < i {
        assert(ranks_above(layers, importance, ranked[j].index as int, ranked[i].index as int));
    }
}

// ---------------------------------------------------------------------------
// Laws of counts
// ---------------------------------------------------------------------------

/// How many events count: those of a trace that select something, those that do
/// so in a layer, and those that select two experts of a layer together.
pub proof fn events_are_counted(events: Seq<CalibrationTraceEvent>, layer: u32, a: u32, b: u32)
    ensures
        all_events(events) == events.filter(
            |e: CalibrationTraceEvent|
                e.selected_experts@.len() > 0 && e.selected_weights@.len() > 0,
        ).len(),
        layer_events(events, layer) == events.filter(
            |e: CalibrationTraceEvent|
                e.layer == layer && e.selected_experts@.len() > 0 && e.selected_weights@.len() > 0,
        ).len(),
        a < b ==> pair_events(events, layer, a, b) == events.filter(
            |e: CalibrationTraceEvent|
                e.layer == layer && weighs(e, a) && weighs(e, b),
        ).len(),
        a >= b ==> pair_events(events, layer, a, b) == 0,
    decreases events.len(),
{
    reveal(Seq::filter);
    if events.len() > 0 {
        events_are_counted(events.drop_last(), layer, a, b);
        let e = events.last();
        let chosen = e.selected_experts@.take(counted(e) as int);
        assert forall|x: u32| chosen.contains(x) == #[trigger] weighs(e, x) by {
            if chosen.contains(x) {
                let i = choose|i: int| 0 <= i < chosen.len() && chosen[i] == x;
                assert(e.selected_experts@[i] == x);
            }
            if weighs(e, x) {
                let i = choose|i: int|
                    0 <= i < e.selected_experts@.len() && i < e.selected_weights@.len()
                        && #[trigger] e.selected_experts@[i] == x;
                assert(chosen[i] == x);
            }
        }
        assert(weighs(e, a) == chosen.contains(a) && weighs(e, b) == chosen.contains(b));
    }
}

/// The event selects the expert, and gives it a weight.
pub open spec fn weighs(e: CalibrationTraceEvent, expert: u32) -> bool {
    exists|i: int|
        0 <= i < e.selected_experts@.len() && i < e.selected_weights@.len()
            && #[trigger] e.selected_experts@[i] == expert
}

/// The places of an event at which an expert is selected with a weight.
pub open spec fn selection_places(e: CalibrationTraceEvent, expert: u32, n: nat) -> Seq<int> {
    Seq::new(n, |i: int| i).filter(|i: int| e.selected_experts@[i] == expert)
}

/// The weights that an event gives an expert are those that stand where the expert
/// does, in order.
pub proof fn weights_stand_with_experts(e: CalibrationTraceEvent, layer: u32, expert: u32, n: nat)
    ensures
        e.layer == layer ==> weights_in(e, layer, expert, n) == selection_places(
            e,
            expert,
            n,
        ).map_values(|i: int| e.selected_weights@[i]),
        e.layer != layer ==> weights_in(e, layer, expert, n).len() == 0,
    decreases n,
{
    reveal(Seq::filter);
    let places = Seq::new(n, |i: int| i);
    if n > 0 {
        let m = (n - 1) as nat;
        weights_stand_with_experts(e, layer, expert, m);
        assert(places.drop_last() == Seq::new(m, |i: int| i));
        assert(places.last() == m);
        let (front, all) = (selection_places(e, expert, m), selection_places(e, expert, n));
        let f = |i: int| e.selected_weights@[i];
        if e.selected_experts@[m as int] == expert {
            assert(all == front.push(m as int));
            assert(all.map_values(f) == front.map_values(f).push(f(m as int)));
        } else {
            assert(all == front);
        }
    } else {
        assert(selection_places(e, expert, 0).map_values(|i: int| e.selected_weights@[i]) == Seq::<
            u32,
        >::empty());
    }
}

/// What two traces give an expert, one after the other, is what they give it
/// together.
pub proof fn traces_add_up(
    first: Seq<CalibrationTraceEvent>,
    second: Seq<CalibrationTraceEvent>,
    layer: u32,
    expert: u32,
)
    ensures
        weights_of(first + second, layer, expert) == weights_of(first, layer, expert) + weights_of(
            second,
            layer,
            expert,
        ),
        second.len() == 1 ==> weights_of(second, layer, expert) == weights_in(
            second[0],
            layer,
            expert,
            counted(second[0]),
        ),
    decreases second.len(),
{
    if second.len() == 0 {
        assert(first + second == first);
        assert(weights_of(first, layer, expert) + Seq::<u32>::empty() == weights_of(
            first,
            layer,
            expert,
        ));
    } else {
        traces_add_up(first, second.drop_last(), layer, expert);
        assert((first + second).drop_last() == first + second.drop_last());
        let (a, b) = (weights_of(first, layer, expert), weights_of(second.drop_last(), layer, expert));
        let c = weights_in(second.last(), layer, expert, counted(second.last()));
        assert((a + b) + c == a + (b + c));
        if second.len() == 1 {
            assert(second.drop_last().len() == 0);
            assert(Seq::<u32>::empty() + c == c);
        }
    }
}

/// Each line of a trace that is not blank is an event, under its number from one on
/// and without the white space round it; blank lines count but hold none.
pub proof fn blank_lines_are_left_out(lines: Seq<Seq<char>>)
    ensures
        forall|k: int|
            0 <= k < event_lines(lines).len() ==> {
                let e = #[trigger] event_lines(lines)[k];
                &&& 1 <= e.0 <= lines.len()
                &&& e.1 == text::trimmed(lines[e.0 - 1])
                &&& e.1.len() > 0
            },
        forall|j: int, k: int|
            0 <= j < k < event_lines(lines).len() ==> (#[trigger] event_lines(lines)[j]).0 < (
            #[trigger] event_lines(lines)[k]).0,
        forall|i: int|
            0 <= i < lines.len() && text::trimmed(#[trigger] lines[i]).len() > 0
                ==> event_lines(lines).contains(((i + 1) as nat, text::trimmed(lines[i]))),
    decreases lines.len(),
{
    if lines.len() > 0 {
        let front = lines.drop_last();
        blank_lines_are_left_out(front);
        let (was, now) = (event_lines(front), event_lines(lines));
        assert forall|k: int| 0 <= k < now.len() implies {
            let e = #[trigger] now[k];
            &&& 1 <= e.0 <= lines.len()
            &&& e.1 == text::trimmed(lines[e.0 - 1])
            &&& e.1.len() > 0
        } by {
            if k < was.len() {
                assert(now[k] == was[k]);
                assert(front[was[k].0 - 1] == lines[was[k].0 - 1]);
            }
        }
        assert forall|j: int, k: int| 0 <= j < k < now.len() implies (#[trigger] now[j]).0 < (
        #[trigger] now[k]).0 by {
            assert(now[j] == was[j]);
            if k < was.len() {
                assert(now[k] == was[k]);
            }
        }
        assert forall|i: int|
            0 <= i < lines.len() && text::trimmed(#[trigger] lines[i]).len() > 0 implies now.contains(
            ((i + 1) as nat, text::trimmed(lines[i])),
        ) by {
            let e = ((i + 1) as nat, text::trimmed(lines[i]));
            if i < front.len() {
                assert(front[i] == lines[i]);
                let k = choose|k: int| 0 <= k < was.len() && was[k] == e;
                assert(now[k] == e);
            } else {
                assert(now[now.len() - 1] == e);
            }
        }
    }
}

/// In a usage list every expert has as many selections as the trace has weights for
/// it, no expert comes twice, and none is left out.
pub proof fn usage_is_counted(
    list: Seq<ExpertUsage>,
    events: Seq<CalibrationTraceEvent>,
    layer: u32,
    expert: u32,
)
    requires
        is_usage(list, events),
    ensures
        weights_of(events, layer, expert).len() > 0 ==> exists|i: int|
            {
                &&& 0 <= i < list.len()
                &&& (#[trigger] list[i]).layer == layer
                &&& list[i].expert == expert
                &&& list[i].selected_count == weights_of(events, layer, expert).len()
                &&& list[i].weights@ == weights_of(events, layer, expert)
            },
        weights_of(events, layer, expert).len() == 0 ==> forall|i: int|
            0 <= i < list.len() ==> (#[trigger] list[i]).layer != layer || list[i].expert != expert,
        forall|i: int, j: int|
            0 <= i < list.len() && 0 <= j < list.len() && (#[trigger] list[i]).layer == (
            #[trigger] list[j]).layer && list[i].expert == list[j].expert ==> i == j,
        forall|i: int, j: int|
            0 <= i < j < list.len() ==> (#[trigger] list[i]).layer <= (#[trigger] list[j]).layer,
{
    if weights_of(events, layer, expert).len() > 0 {
        let i = choose|i: int|
            0 <= i < list.len() && (#[trigger] list[i]).layer == layer && list[i].expert == expert;
        assert(list[i].weights@ == weights_of(events, layer, expert));
    }
}

/// In a list of layers every layer has as many events as the trace has in it, no layer
/// comes twice, and none is left out.
pub proof fn layers_are_counted(
    list: Seq<LayerEventCount>,
    events: Seq<CalibrationTraceEvent>,
    layer: u32,
)
    requires
        is_layer_counts(list, events),
    ensures
        layer_events(events, layer) > 0 ==> exists|i: int|
            0 <= i < list.len() && (#[trigger] list[i]).layer == layer && list[i].count
                == layer_events(events, layer),
        layer_events(events, layer) == 0 ==> forall|i: int|
            0 <= i < list.len() ==> (#[trigger] list[i]).layer != layer,
        forall|i: int, j: int|
            0 <= i < list.len() && 0 <= j < list.len() && (#[trigger] list[i]).layer == (
            #[trigger] list[j]).layer ==> i == j,
{
    if layer_events(events, layer) > 0 {
        let i = choose|i: int| 0 <= i < list.len() && (#[trigger] list[i]).layer == layer;
        assert(list[i].count == layer_events(events, layer));
    }
}

/// In a list of pairs every pair of a layer says in how many events both were
/// selected, the smaller expert first; within a layer the most frequent pair leads.
pub proof fn pairs_are_counted(
    list: Seq<PairCount>,
    events: Seq<CalibrationTraceEvent>,
    layer: u32,
    a: u32,
    b: u32,
)
    requires
        is_pairs(list, events),
        a < b,
    ensures
        events.filter(
            |e: CalibrationTraceEvent|
                e.layer == layer && weighs(e, a) && weighs(e, b),
        ).len() > 0 ==> exists|i: int|
            {
                &&& 0 <= i < list.len()
                &&& (#[trigger] list[i]).layer == layer
                &&& list[i].expert_a == a
                &&& list[i].expert_b == b
                &&& list[i].co_count == events.filter(
                    |e: CalibrationTraceEvent|
                        e.layer == layer && weighs(e, a) && weighs(e, b),
                ).len()
            },
        forall|i: int| 0 <= i < list.len() ==> (#[trigger] list[i]).expert_a < list[i].expert_b,
        forall|i: int, j: int|
            0 <= i < j < list.len() ==> {
                let (p, q) = (#[trigger] list[i], #[trigger] list[j]);
                &&& p.layer <= q.layer
                &&& p.layer == q.layer ==> p.co_count >= q.co_count
                &&& p.layer == q.layer && p.co_count == q.co_count ==> p.expert_a <= q.expert_a
                &&& p.layer == q.layer && p.co_count == q.co_count && p.expert_a == q.expert_a
                    ==> p.expert_b < q.expert_b
            },
{
    events_are_counted(events, layer, a, b);
    if pair_events(events, layer, a, b) > 0 {
        let i = choose|i: int|
            0 <= i < list.len() && (#[trigger] list[i]).layer == layer && list[i].expert_a == a
                && list[i].expert_b == b;
        assert(list[i].co_count == pair_events(events, layer, a, b));
    }
    assert forall|i: int| 0 <= i < list.len() implies (#[trigger] list[i]).expert_a
        < list[i].expert_b by {
        events_are_counted(events, list[i].layer, list[i].expert_a, list[i].expert_b);
    }
}

} // verus!
