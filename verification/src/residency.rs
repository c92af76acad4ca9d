//! What stays on the device from one run to the next: a run whose tensors fit into
//! the cache leaves all of them there, and a run that finds all of them there
//! uploads nothing.

use crate::cache;
use crate::cache::{CacheEntry, CudaExpertCache, ExpertCacheKey};
use crate::session;
use crate::session::{ExpertLoad, MoeRun, MoeStep, Part};
use std::sync::Arc;
use vstd::prelude::*;

verus! {

// ---------------------------------------------------------------------------
// The tensors of a run
// ---------------------------------------------------------------------------

/// Tensor `t` of expert `i` is one of the plan's.
pub open spec fn in_plan(loads: Seq<ExpertLoad>, i: int, t: int) -> bool {
    0 <= i < loads.len() && 0 <= t < loads[i].tensors@.len()
}

/// The key of tensor `t` of expert `i` of a run's plan.
pub open spec fn key_at(run: MoeRun, i: int, t: int) -> ExpertCacheKey {
    ExpertCacheKey {
        layer_id: run.layer_id,
        expert_id: run.loads@[i].expert,
        tensor_kind: run.loads@[i].tensors@[t].kind,
        quant_format: run.format,
    }
}

/// The run has got tensor `t` of expert `i`.
pub open spec fn has_got(run: MoeRun, i: int, t: int) -> bool {
    in_plan(run.loads@, i, t) && (i < run.at_expert || (i == run.at_expert && t < run.at_tensor))
}

/// The run has got a tensor of this key.
pub open spec fn got_key(run: MoeRun, key: ExpertCacheKey) -> bool {
    exists|i: int, t: int| #[trigger] has_got(run, i, t) && key_at(run, i, t) == key
}

/// The bytes of the tensors that the run has got.
pub open spec fn got_bytes(run: MoeRun) -> nat {
    session::load_sum(run.loads@.take(run.at_expert as int), Part::Whole) + (if run.at_expert
        < run.loads@.len() {
        session::tensor_sum(
            run.loads@[run.at_expert as int].tensors@.take(run.at_tensor as int),
            Part::Whole,
        )
    } else {
        0
    })
}

/// The cache holds every tensor of the plan, and none of the experts is to go past
/// the cache.
pub open spec fn all_resident<B>(run: MoeRun, c: CudaExpertCache<B>) -> bool {
    &&& !run.bypass
    &&& forall|i: int|
        0 <= i < run.loads@.len() ==> session::tensor_sum(
            (#[trigger] run.loads@[i]).tensors@,
            Part::Whole,
        ) <= c.capacity_bytes
    &&& forall|i: int, t: int|
        #![trigger key_at(run, i, t)]
        in_plan(run.loads@, i, t) ==> c.holds(key_at(run, i, t))
}

/// The plan fits into the cache beside what is pinned, and no cached tensor of the
/// plan is larger than planned.
pub open spec fn plan_fits<B>(run: MoeRun, c: CudaExpertCache<B>) -> bool {
    &&& cache::total_bytes(c.entries@, true) + session::load_sum(run.loads@, Part::Whole)
        <= c.capacity_bytes
    &&& forall|j: int, i: int, t: int|
        #![trigger c.entries@[j], key_at(run, i, t)]
        0 <= j < c.entries@.len() && in_plan(run.loads@, i, t) && c.entries@[j].key == key_at(
            run,
            i,
            t,
        ) ==> c.entries@[j].size <= run.loads@[i].tensors@[t].bytes
}

/// From `p` on the cache holds what the run has got, and before `p` nothing of it.
pub open spec fn recent_from<B>(run: MoeRun, s: Seq<CacheEntry<B>>, p: int) -> bool {
    &&& 0 <= p <= s.len()
    &&& forall|j: int| 0 <= j < p ==> !got_key(run, (#[trigger] s[j]).key)
    &&& forall|j: int| p <= j < s.len() ==> got_key(run, (#[trigger] s[j]).key)
    &&& cache::total_bytes(s.skip(p), false) <= got_bytes(run)
    &&& forall|j: int, i: int, t: int|
        #![trigger s[j], key_at(run, i, t)]
        0 <= j < p && in_plan(run.loads@, i, t) && s[j].key == key_at(run, i, t) ==> s[j].size
            <= run.loads@[i].tensors@[t].bytes
}

/// The run is under way, and the cache holds all that it has got.
pub open spec fn keeps_up<B>(run: MoeRun, c: CudaExpertCache<B>) -> bool {
    &&& c.wf()
    &&& !run.bypass
    &&& cache::total_bytes(c.entries@, true) + session::load_sum(run.loads@, Part::Whole)
        <= c.capacity_bytes
    &&& exists|p: int| recent_from(run, c.entries@, p)
    &&& forall|i: int, t: int|
        #![trigger has_got(run, i, t)]
        has_got(run, i, t) ==> c.holds(key_at(run, i, t))
    &&& run.waiting ==> !c.holds(run.key())
}

// ---------------------------------------------------------------------------
// Lemmas
// ---------------------------------------------------------------------------

pub(crate) proof fn lemma_total_split<B>(s: Seq<CacheEntry<B>>, p: int, pinned_only: bool)
    requires
        0 <= p <= s.len(),
    ensures
        cache::total_bytes(s, pinned_only) == cache::total_bytes(s.take(p), pinned_only)
            + cache::total_bytes(s.skip(p), pinned_only),
    decreases s.len() - p,
{
    if p == s.len() {
        assert(s.take(p) == s);
        assert(s.skip(p) == Seq::<CacheEntry<B>>::empty());
    } else {
        let d = s.drop_last();
        lemma_total_split(d, p, pinned_only);
        assert(d.take(p) == s.take(p));
        assert(s.skip(p).drop_last() == d.skip(p));
        assert(s.skip(p).last() == s.last());
    }
}

/// Where what is pinned leaves room for the entries from `p` on, those stay.
pub(crate) proof fn lemma_recent_stay<B>(
    s: Seq<CacheEntry<B>>,
    p: int,
    size: nat,
    capacity: nat,
) -> (q: int)
    requires
        0 <= p <= s.len(),
        cache::total_bytes(s.take(p), true) + cache::total_bytes(s.skip(p), false) + size
            <= capacity,
    ensures
        0 <= q <= p,
        q <= cache::make_room(s, size, capacity).len(),
        cache::make_room(s, size, capacity).skip(q) == s.skip(p),
        forall|j: int|
            0 <= j < q ==> s.take(p).contains(
                #[trigger] cache::make_room(s, size, capacity)[j],
            ),
    decreases p,
{
    let room = cache::make_room(s, size, capacity);
    if cache::total_bytes(s, false) + size <= capacity {
        assert forall|j: int| 0 <= j < p implies s.take(p).contains(#[trigger] room[j]) by {
            assert(s.take(p)[j] == room[j]);
        }
        p
    } else {
        cache::victim_is_first_unpinned(s);
        lemma_total_split(s, p, false);
        match cache::victim(s) {
            Some(v) => {
                if v >= p {
                    assert forall|j: int| 0 <= j < s.take(p).len() implies (#[trigger] s.take(
                        p,
                    )[j]).is_pinned() by {
                        assert(s[j].is_pinned());
                    }
                    cache::lemma_total_all_pinned(s.take(p));
                    assert(false);
                }
                let r = s.remove(v);
                let front = r.take(p - 1);
                assert(front == s.take(p).remove(v));
                assert(r.skip(p - 1) == s.skip(p));
                cache::lemma_total_remove(s.take(p), v, true);
                let q = lemma_recent_stay(r, p - 1, size, capacity);
                assert forall|j: int| 0 <= j < q implies s.take(p).contains(
                    #[trigger] room[j],
                ) by {
                    assert(front.contains(room[j]));
                    let k = choose|k: int| 0 <= k < front.len() && front[k] == room[j];
                    let m = if k < v {
                        k
                    } else {
                        k + 1
                    };
                    assert(s.take(p)[m] == room[j]);
                }
                q
            },
            None => {
                assert forall|j: int| 0 <= j < s.take(p).len() implies (#[trigger] s.take(
                    p,
                )[j]).is_pinned() by {
                    assert(s[j].is_pinned());
                }
                cache::lemma_total_all_pinned(s.take(p));
                assert(false);
                p
            },
        }
    }
}

/// What the run has got, and one tensor more.
pub(crate) proof fn lemma_got_next(was: MoeRun, now: MoeRun)
    requires
        was.wf(),
        now.keeps_plan(was),
        was.at_expert < was.loads@.len(),
        was.at_tensor < was.load().tensors@.len(),
        now.at_expert == was.at_expert,
        now.at_tensor == was.at_tensor + 1,
    ensures
        forall|k: ExpertCacheKey| #[trigger] got_key(now, k) <==> got_key(was, k) || k == was.key(),
        got_bytes(now) == got_bytes(was) + was.tensor().bytes,
        got_bytes(now) <= session::load_sum(was.loads@, Part::Whole),
{
    let (e, t0) = (was.at_expert as int, was.at_tensor as int);
    assert forall|k: ExpertCacheKey| #[trigger] got_key(now, k) <==> got_key(was, k) || k
        == was.key() by {
        if got_key(now, k) {
            let (i, t) = choose|i: int, t: int| #[trigger] has_got(now, i, t) && key_at(now, i, t) == k;
            if i == e && t == t0 {
                assert(key_at(now, i, t) == was.key());
            } else {
                assert(has_got(was, i, t) && key_at(was, i, t) == k);
            }
        }
        if got_key(was, k) {
            let (i, t) = choose|i: int, t: int| #[trigger] has_got(was, i, t) && key_at(was, i, t) == k;
            assert(has_got(now, i, t) && key_at(now, i, t) == k);
        }
        if k == was.key() {
            assert(has_got(now, e, t0) && key_at(now, e, t0) == k);
        }
    }
    let ts = was.load().tensors@;
    session::lemma_tensor_sum_prefix(ts, t0, Part::Whole);
    session::lemma_tensor_sum_prefix(ts, t0 + 1, Part::Whole);
    session::lemma_load_sum_prefix(was.loads@, e, Part::Whole);
    session::lemma_load_sum_prefix(was.loads@, e + 1, Part::Whole);
}

/// A place with the same tensors behind it.
pub(crate) proof fn lemma_got_same(was: MoeRun, now: MoeRun)
    requires
        was.wf(),
        now.keeps_plan(was),
        was.at_expert < was.loads@.len(),
        (now.at_expert == was.at_expert && now.at_tensor == was.at_tensor) || (was.at_tensor
            == was.load().tensors@.len() && now.at_expert == was.at_expert + 1 && now.at_tensor
            == 0),
    ensures
        forall|i: int, t: int| #[trigger] has_got(now, i, t) <==> has_got(was, i, t),
        forall|k: ExpertCacheKey| #[trigger] got_key(now, k) <==> got_key(was, k),
        got_bytes(now) == got_bytes(was),
{
    assert forall|k: ExpertCacheKey| #[trigger] got_key(now, k) <==> got_key(was, k) by {
        if got_key(now, k) {
            let (i, t) = choose|i: int, t: int| #[trigger] has_got(now, i, t) && key_at(now, i, t) == k;
            assert(has_got(was, i, t) && key_at(was, i, t) == k);
        }
        if got_key(was, k) {
            let (i, t) = choose|i: int, t: int| #[trigger] has_got(was, i, t) && key_at(was, i, t) == k;
            assert(has_got(now, i, t) && key_at(now, i, t) == k);
        }
    }
    let e = was.at_expert as int;
    let ts = was.load().tensors@;
    if now.at_expert == was.at_expert + 1 {
        assert(ts.take(ts.len() as int) == ts);
        session::lemma_load_sum_prefix(was.loads@, e, Part::Whole);
        if now.at_expert < now.loads@.len() {
            assert(now.load().tensors@.take(0) == Seq::<crate::moe::TensorLoad>::empty());
        }
    }
}

/// A lookup leaves every tensor that is cached.
proof fn lemma_touch_holds<B>(s: Seq<CacheEntry<B>>, key: ExpertCacheKey, k: ExpertCacheKey)
    requires
        cache::distinct_keys(s),
        cache::position(s, k) is Some,
        cache::distinct_keys(cache::touched(s, key)),
    ensures
        cache::position(cache::touched(s, key), k) is Some,
{
    cache::position_is_exact(s, key);
    cache::position_is_exact(s, k);
    let r = cache::touched(s, key);
    cache::position_is_exact(r, k);
    match cache::position(s, key) {
        Some(i) => {
            let j = cache::position(s, k)->0;
            if j == i {
                assert(r[r.len() - 1].key == k);
            } else if j < i {
                assert(r[j].key == k);
            } else {
                assert(r[j - 1].key == k);
            }
        },
        None => {},
    }
}

/// A step that gets no tensor and leaves the entries as they are.
proof fn lemma_same_keeps_up<B>(
    was: MoeRun,
    now: MoeRun,
    x: CudaExpertCache<B>,
    y: CudaExpertCache<B>,
)
    requires
        was.wf(),
        keeps_up(was, x),
        was.at_expert < was.loads@.len(),
        now.keeps_plan(was),
        (now.at_expert == was.at_expert && now.at_tensor == was.at_tensor) || (was.at_tensor
            == was.load().tensors@.len() && now.at_expert == was.at_expert + 1 && now.at_tensor
            == 0),
        now.waiting ==> !y.holds(now.key()),
        !now.bypass,
        y.wf(),
        y.same_limits(x),
        y.entries@ == x.entries@,
    ensures
        keeps_up(now, y),
{
    lemma_got_same(was, now);
    let p = choose|p: int| recent_from(was, x.entries@, p);
    assert forall|j: int, i: int, t: int|
        #![trigger y.entries@[j], key_at(now, i, t)]
        0 <= j < p && in_plan(now.loads@, i, t) && y.entries@[j].key == key_at(
            now,
            i,
            t,
        ) implies y.entries@[j].size <= now.loads@[i].tensors@[t].bytes by {
        assert(key_at(now, i, t) == key_at(was, i, t));
        assert(x.entries@[j].key == key_at(was, i, t));
    }
    assert(recent_from(now, y.entries@, p));
    assert forall|i: int, t: int|
        #![trigger has_got(now, i, t)]
        has_got(now, i, t) implies y.holds(key_at(now, i, t)) by {
        assert(has_got(was, i, t));
        assert(key_at(now, i, t) == key_at(was, i, t));
    }
}

/// What a run gets next.
spec fn gets_next(was: MoeRun, now: MoeRun) -> bool {
    &&& was.wf()
    &&& was.at_expert < was.loads@.len()
    &&& was.at_tensor < was.load().tensors@.len()
    &&& now.keeps_plan(was)
    &&& now.at_expert == was.at_expert
    &&& now.at_tensor == was.at_tensor + 1
}

/// The tensor at `v` is used again; the run had got it before.
proof fn lemma_hit_recent<B>(was: MoeRun, now: MoeRun, s: Seq<CacheEntry<B>>, p: int, v: int)
    requires
        gets_next(was, now),
        recent_from(was, s, p),
        p <= v < s.len(),
        s[v].key == was.key(),
    ensures
        recent_from(now, s.remove(v).push(s[v]), p),
{
    let r = s.remove(v).push(s[v]);
    let tail = s.skip(p);
    lemma_got_next(was, now);
    assert(r.skip(p) == tail.remove(v - p).push(tail[v - p]));
    cache::lemma_total_remove(tail, v - p, false);
    cache::lemma_total_push(tail.remove(v - p), tail[v - p], false);
    assert forall|j: int| 0 <= j < p implies !got_key(now, (#[trigger] r[j]).key) by {
        assert(r[j] == s[j]);
        assert(!got_key(was, s[j].key));
        assert(got_key(was, s[v].key));
    }
    assert forall|j: int| p <= j < r.len() implies got_key(now, (#[trigger] r[j]).key) by {
        if j < r.len() - 1 {
            assert(r[j] == s[if j < v {
                j
            } else {
                j + 1
            }]);
        }
    }
    assert forall|j: int, i: int, t: int|
        #![trigger r[j], key_at(now, i, t)]
        0 <= j < p && in_plan(now.loads@, i, t) && r[j].key == key_at(now, i, t) implies r[j].size
        <= now.loads@[i].tensors@[t].bytes by {
        assert(r[j] == s[j]);
        assert(key_at(now, i, t) == key_at(was, i, t));
    }
}

/// The tensor at `v` is used again; the run had not got it before.
proof fn lemma_hit_older<B>(was: MoeRun, now: MoeRun, s: Seq<CacheEntry<B>>, p: int, v: int)
    requires
        gets_next(was, now),
        cache::distinct_keys(s),
        recent_from(was, s, p),
        0 <= v < p,
        s[v].key == was.key(),
    ensures
        recent_from(now, s.remove(v).push(s[v]), p - 1),
{
    let r = s.remove(v).push(s[v]);
    let tail = s.skip(p);
    lemma_got_next(was, now);
    assert(r.skip(p - 1) == tail.push(s[v]));
    cache::lemma_total_push(tail, s[v], false);
    assert(key_at(was, was.at_expert as int, was.at_tensor as int) == was.key());
    assert(s[v].size <= was.tensor().bytes);
    assert forall|j: int| 0 <= j < p - 1 implies !got_key(now, (#[trigger] r[j]).key) by {
        let m = if j < v {
            j
        } else {
            j + 1
        };
        assert(r[j] == s[m]);
        assert(s[m].key != s[v].key);
    }
    assert forall|j: int| p - 1 <= j < r.len() implies got_key(now, (#[trigger] r[j]).key) by {
        if j < r.len() - 1 {
            assert(r[j] == s[j + 1]);
        }
    }
    assert forall|j: int, i: int, t: int|
        #![trigger r[j], key_at(now, i, t)]
        0 <= j < p - 1 && in_plan(now.loads@, i, t) && r[j].key == key_at(
            now,
            i,
            t,
        ) implies r[j].size <= now.loads@[i].tensors@[t].bytes by {
        assert(r[j] == s[if j < v {
            j
        } else {
            j + 1
        }]);
        assert(key_at(now, i, t) == key_at(was, i, t));
    }
}

/// The request of a tensor that is cached.
proof fn lemma_hit_keeps_up<B>(
    was: MoeRun,
    now: MoeRun,
    x: CudaExpertCache<B>,
    y: CudaExpertCache<B>,
)
    requires
        gets_next(was, now),
        keeps_up(was, x),
        x.holds(was.key()),
        !now.waiting,
        !now.bypass,
        y.wf(),
        y.same_limits(x),
        y.entries@ == cache::touched(x.entries@, was.key()),
    ensures
        keeps_up(now, y),
{
    let key = was.key();
    let s = x.entries@;
    let p = choose|p: int| recent_from(was, s, p);
    cache::position_is_exact(s, key);
    let v = cache::position(s, key)->0;
    cache::lemma_total_remove(s, v, true);
    cache::lemma_total_push(s.remove(v), s[v], true);
    if v >= p {
        lemma_hit_recent(was, now, s, p, v);
    } else {
        lemma_hit_older(was, now, s, p, v);
    }
    assert forall|i: int, t: int|
        #![trigger has_got(now, i, t)]
        has_got(now, i, t) implies y.holds(key_at(now, i, t)) by {
        if has_got(was, i, t) {
            assert(x.holds(key_at(was, i, t)));
        } else {
            assert(key_at(now, i, t) == key);
        }
        lemma_touch_holds(s, key, key_at(now, i, t));
    }
}

/// An uploaded tensor is taken in, and nothing that the run has got goes.
proof fn lemma_insert_keeps_up<B>(
    was: MoeRun,
    now: MoeRun,
    x: CudaExpertCache<B>,
    y: CudaExpertCache<B>,
    handle: Arc<B>,
)
    requires
        was.wf(),
        was.waiting,
        keeps_up(was, x),
        now.keeps_plan(was),
        now.at_expert == was.at_expert,
        now.at_tensor == was.at_tensor + 1,
        !now.waiting,
        !now.bypass,
        y.wf(),
        cache::inserted(x, y, was.key(), handle, was.tensor().bytes),
    ensures
        keeps_up(now, y),
{
    let key = was.key();
    let size = was.tensor().bytes;
    let s = x.entries@;
    let r = y.entries@;
    let capacity = x.capacity_bytes as nat;
    let p = choose|p: int| recent_from(was, s, p);
    lemma_got_next(was, now);
    lemma_total_split(s, p, true);
    cache::position_is_exact(s, key);
    let kept = cache::make_room(s, size as nat, capacity);
    let q = lemma_recent_stay(s, p, size as nat, capacity);
    cache::lemma_make_room(s, size as nat, capacity, key);
    let e = r.last();
    assert(r == kept.push(e));
    assert(r.skip(q) == s.skip(p).push(e));
    cache::lemma_total_push(s.skip(p), e, false);
    cache::lemma_total_push(kept, e, true);
    assert forall|j: int| 0 <= j < q implies exists|m: int|
        0 <= m < p && #[trigger] s[m] == #[trigger] r[j] by {
        assert(s.take(p).contains(kept[j]));
        let m = choose|m: int| 0 <= m < s.take(p).len() && s.take(p)[m] == kept[j];
        assert(s[m] == r[j]);
    }
    assert forall|j: int| 0 <= j < q implies !got_key(now, (#[trigger] r[j]).key) by {
        let m = choose|m: int| 0 <= m < p && #[trigger] s[m] == r[j];
        assert(s[m].key != key);
    }
    assert forall|j: int| q <= j < r.len() implies got_key(now, (#[trigger] r[j]).key) by {
        if j < kept.len() {
            assert(kept.skip(q)[j - q] == s.skip(p)[j - q]);
            assert(r[j] == s[p + (j - q)]);
        }
    }
    assert forall|j: int, i: int, t: int|
        #![trigger r[j], key_at(now, i, t)]
        0 <= j < q && in_plan(now.loads@, i, t) && r[j].key == key_at(now, i, t) implies r[j].size
        <= now.loads@[i].tensors@[t].bytes by {
        let m = choose|m: int| 0 <= m < p && #[trigger] s[m] == r[j];
        assert(key_at(now, i, t) == key_at(was, i, t));
        assert(s[m].key == key_at(was, i, t));
    }
    assert(recent_from(now, r, q));
    assert forall|i: int, t: int|
        #![trigger has_got(now, i, t)]
        has_got(now, i, t) implies y.holds(key_at(now, i, t)) by {
        let k = key_at(now, i, t);
        cache::position_is_exact(r, k);
        if has_got(was, i, t) {
            assert(key_at(was, i, t) == k);
            assert(x.holds(k));
            cache::position_is_exact(s, k);
            let j = cache::position(s, k)->0;
            assert(got_key(was, k));
            assert(s[j].key == k);
            assert(j >= p);
            assert(kept.skip(q)[j - p] == s.skip(p)[j - p]);
            assert(r[q + (j - p)].key == k);
        } else {
            assert(k == key);
            assert(r[kept.len() as int].key == k);
        }
    }
}

// ---------------------------------------------------------------------------
// Laws
// ---------------------------------------------------------------------------

/// A run that begins with a cache into which its plan fits keeps up.
pub proof fn fitting_runs_keep_up<B>(run: MoeRun, c: CudaExpertCache<B>)
    requires
        run.wf(),
        run.fresh(),
        c.wf(),
        plan_fits(run, c),
    ensures
        keeps_up(run, c),
{
    let s = c.entries@;
    assert(s.skip(s.len() as int) == Seq::<CacheEntry<B>>::empty());
    assert(recent_from(run, s, s.len() as int));
}

/// A run that keeps up does so after its next step.
pub proof fn steps_keep_up<B>(
    was: MoeRun,
    now: MoeRun,
    before: CudaExpertCache<B>,
    after: CudaExpertCache<B>,
    step: MoeStep<B>,
)
    requires
        was.wf(),
        !was.waiting,
        keeps_up(was, before),
        session::advanced(was, now, Some(before), Some(after), step),
    ensures
        keeps_up(now, after),
{
    if !was.finished() {
        if was.begun && was.at_tensor < was.load().tensors@.len() && before.holds(was.key()) {
            lemma_hit_keeps_up(was, now, before, after);
        } else {
            session::lemma_load_sum_prefix(was.loads@, was.at_expert as int, Part::Whole);
            session::lemma_load_sum_prefix(was.loads@, was.at_expert + 1, Part::Whole);
            lemma_same_keeps_up(was, now, before, after);
        }
    }
}

/// A run that keeps up does so after the tensor that it asked for was uploaded.
pub proof fn uploads_keep_up<B>(
    was: MoeRun,
    now: MoeRun,
    before: CudaExpertCache<B>,
    after: CudaExpertCache<B>,
    handle: Arc<B>,
)
    requires
        was.wf(),
        was.waiting,
        keeps_up(was, before),
        session::handed_over(was, now, Some(before), Some(after), handle),
    ensures
        keeps_up(now, after),
{
    lemma_insert_keeps_up(was, now, before, after, handle);
}

/// A run that has kept up to its end leaves all its tensors in the cache: to a run
/// with the same plan all of them are resident.
pub proof fn finished_runs_stay_resident<B>(done: MoeRun, next: MoeRun, c: CudaExpertCache<B>)
    requires
        done.wf(),
        done.finished(),
        keeps_up(done, c),
        next.fresh(),
        next.same_plan(done),
    ensures
        all_resident(next, c),
{
    session::lemma_load_sum_same(next.loads@, done.loads@, Part::Whole);
    assert forall|i: int| 0 <= i < next.loads@.len() implies session::tensor_sum(
        (#[trigger] next.loads@[i]).tensors@,
        Part::Whole,
    ) <= c.capacity_bytes by {
        session::lemma_load_sum_prefix(next.loads@, i, Part::Whole);
        session::lemma_load_sum_prefix(next.loads@, i + 1, Part::Whole);
    }
    assert forall|i: int, t: int|
        #![trigger key_at(next, i, t)]
        in_plan(next.loads@, i, t) implies c.holds(key_at(next, i, t)) by {
        assert(has_got(done, i, t));
        assert(key_at(next, i, t) == key_at(done, i, t));
    }
}

/// A run to which all its tensors are resident uploads nothing in its next step,
/// counts nothing as loaded, and finds them resident still.
pub proof fn resident_runs_upload_nothing<B>(
    was: MoeRun,
    now: MoeRun,
    before: CudaExpertCache<B>,
    after: CudaExpertCache<B>,
    step: MoeStep<B>,
)
    requires
        was.wf(),
        !was.waiting,
        before.wf(),
        all_resident(was, before),
        session::advanced(was, now, Some(before), Some(after), step),
    ensures
        !(step is Upload),
        !now.waiting,
        now.tally.weight_loaded == was.tally.weight_loaded,
        now.tally.scale_loaded == was.tally.scale_loaded,
        all_resident(now, after),
{
    if !was.finished() && was.begun && was.at_tensor < was.load().tensors@.len() {
        assert(key_at(was, was.at_expert as int, was.at_tensor as int) == was.key());
        assert(in_plan(was.loads@, was.at_expert as int, was.at_tensor as int));
        assert(before.holds(was.key()));
    }
    assert forall|i: int, t: int|
        #![trigger key_at(now, i, t)]
        in_plan(now.loads@, i, t) implies after.holds(key_at(now, i, t)) by {
        assert(key_at(now, i, t) == key_at(was, i, t));
        if after.entries@ != before.entries@ {
            lemma_touch_holds(before.entries@, was.key(), key_at(was, i, t));
        }
    }
}

} // verus!
