//! Whole runs, from the first step to the last: what they load and what they reuse,
//! and what one run leaves on the device for the next.

use crate::cache;
use crate::cache::{CacheEntry, CudaExpertCache, ExpertCacheKey};
use crate::moe;
use crate::moe::{DeepSeekFp4ExpertWeights, ExpertDims, ExpertWeights, TensorLoad};
use crate::residency;
use crate::session;
use crate::session::{ExpertLoad, MoeRun, MoeStep, Part};
use std::sync::Arc;
use vstd::prelude::*;

verus! {

// ---------------------------------------------------------------------------
// Runs
// ---------------------------------------------------------------------------

/// A run and its cache between two steps.
pub struct Moment<B> {
    pub run: MoeRun,
    pub cache: Option<CudaExpertCache<B>>,
}

/// `b` comes next after `a`: the tensor that was asked for is handed over, or the run
/// takes a step.
pub open spec fn follows<B>(a: Moment<B>, b: Moment<B>) -> bool {
    if a.run.waiting {
        exists|handle: Arc<B>| #[trigger]
            session::handed_over(a.run, b.run, a.cache, b.cache, handle)
    } else {
        exists|step: MoeStep<B>| #[trigger]
            session::advanced(a.run, b.run, a.cache, b.cache, step)
    }
}

/// The moments of a run, from its beginning to its end.
pub open spec fn is_run<B>(h: Seq<Moment<B>>) -> bool {
    &&& h.len() > 0
    &&& h[0].run.fresh()
    &&& h.last().run.finished()
    &&& forall|k: int| 0 <= k < h.len() ==> (#[trigger] h[k]).run.wf()
    &&& forall|k: int, l: int|
        0 <= k && l == k + 1 && l < h.len() ==> follows(#[trigger] h[k], #[trigger] h[l])
}

// ---------------------------------------------------------------------------
// Sums over a plan
// ---------------------------------------------------------------------------

/// The sum of `f` over some tensors.
pub open spec fn tensors_total(ts: Seq<TensorLoad>, f: spec_fn(TensorLoad) -> nat) -> nat
    decreases ts.len(),
{
    if ts.len() == 0 {
        0
    } else {
        tensors_total(ts.drop_last(), f) + f(ts.last())
    }
}

/// The sum of `f` over all tensors of a plan.
pub open spec fn plan_total(loads: Seq<ExpertLoad>, f: spec_fn(TensorLoad) -> nat) -> nat
    decreases loads.len(),
{
    if loads.len() == 0 {
        0
    } else {
        plan_total(loads.drop_last(), f) + tensors_total(loads.last().tensors@, f)
    }
}

/// The sum of `f` over the tensors that a run has got.
pub open spec fn got_total(run: MoeRun, f: spec_fn(TensorLoad) -> nat) -> nat {
    plan_total(run.loads@.take(run.at_expert as int), f) + (if run.at_expert < run.loads@.len() {
        tensors_total(run.load().tensors@.take(run.at_tensor as int), f)
    } else {
        0
    })
}

/// Counts tensors.
pub open spec fn each() -> spec_fn(TensorLoad) -> nat {
    |t: TensorLoad| 1
}

/// Counts the bytes of weights.
pub open spec fn weights() -> spec_fn(TensorLoad) -> nat {
    |t: TensorLoad|
        if session::is_scale(t.kind) {
            0
        } else {
            t.bytes as nat
        }
}

/// Counts the bytes of scales.
pub open spec fn scales() -> spec_fn(TensorLoad) -> nat {
    |t: TensorLoad|
        if session::is_scale(t.kind) {
            t.bytes as nat
        } else {
            0
        }
}

/// Every byte of the plan was uploaded.
pub open spec fn loaded_all(run: MoeRun) -> bool {
    &&& run.tally.weight_loaded == plan_total(run.loads@, weights())
    &&& run.tally.scale_loaded == plan_total(run.loads@, scales())
    &&& run.tally.weight_reused == 0
    &&& run.tally.scale_reused == 0
}

/// Every byte of the plan was found on the device.
pub open spec fn reused_all(run: MoeRun) -> bool {
    &&& run.tally.weight_reused == plan_total(run.loads@, weights())
    &&& run.tally.scale_reused == plan_total(run.loads@, scales())
    &&& run.tally.weight_loaded == 0
    &&& run.tally.scale_loaded == 0
}

proof fn lemma_tensors_prefix(ts: Seq<TensorLoad>, k: int, f: spec_fn(TensorLoad) -> nat)
    requires
        0 <= k < ts.len(),
    ensures
        tensors_total(ts.take(k + 1), f) == tensors_total(ts.take(k), f) + f(ts[k]),
{
    assert(ts.take(k + 1).drop_last() == ts.take(k));
}

proof fn lemma_plan_prefix(loads: Seq<ExpertLoad>, k: int, f: spec_fn(TensorLoad) -> nat)
    requires
        0 <= k < loads.len(),
    ensures
        plan_total(loads.take(k + 1), f) == plan_total(loads.take(k), f) + tensors_total(
            loads[k].tensors@,
            f,
        ),
{
    assert(loads.take(k + 1).drop_last() == loads.take(k));
}

/// Weights and scales are all that a plan has.
pub proof fn weights_and_scales(loads: Seq<ExpertLoad>)
    ensures
        plan_total(loads, weights()) + plan_total(loads, scales()) == session::load_sum(
            loads,
            Part::Whole,
        ),
    decreases loads.len(),
{
    if loads.len() > 0 {
        weights_and_scales(loads.drop_last());
        lemma_weights_and_scales(loads.last().tensors@);
    }
}

proof fn lemma_weights_and_scales(ts: Seq<TensorLoad>)
    ensures
        tensors_total(ts, weights()) + tensors_total(ts, scales()) == session::tensor_sum(
            ts,
            Part::Whole,
        ),
    decreases ts.len(),
{
    if ts.len() > 0 {
        lemma_weights_and_scales(ts.drop_last());
    }
}

/// Runs with the same plan have the same sums.
proof fn lemma_plan_same(a: Seq<ExpertLoad>, b: Seq<ExpertLoad>, f: spec_fn(TensorLoad) -> nat)
    requires
        a.len() == b.len(),
        forall|i: int|
            #![trigger a[i]]
            #![trigger b[i]]
            0 <= i < a.len() ==> a[i].tensors@ == b[i].tensors@,
    ensures
        plan_total(a, f) == plan_total(b, f),
    decreases a.len(),
{
    if a.len() > 0 {
        let (c, d) = (a.drop_last(), b.drop_last());
        assert forall|i: int|
            #![trigger c[i]]
            #![trigger d[i]]
            0 <= i < c.len() implies c[i].tensors@ == d[i].tensors@ by {
            assert(c[i] == a[i] && d[i] == b[i]);
        }
        lemma_plan_same(c, d, f);
        assert(a[a.len() - 1].tensors@ == b[a.len() - 1].tensors@);
    }
}

proof fn lemma_got_none(run: MoeRun, f: spec_fn(TensorLoad) -> nat)
    requires
        run.fresh(),
    ensures
        got_total(run, f) == 0,
{
    assert(run.loads@.take(0) == Seq::<ExpertLoad>::empty());
    if run.loads@.len() > 0 {
        assert(run.load().tensors@.take(0) == Seq::<TensorLoad>::empty());
    }
}

proof fn lemma_got_everything(run: MoeRun, f: spec_fn(TensorLoad) -> nat)
    requires
        run.finished(),
    ensures
        got_total(run, f) == plan_total(run.loads@, f),
{
    assert(run.loads@.take(run.at_expert as int) == run.loads@);
}

/// What a step adds to what the run has got.
proof fn lemma_got_step(was: MoeRun, now: MoeRun, f: spec_fn(TensorLoad) -> nat)
    requires
        was.wf(),
        now.keeps_plan(was),
        was.at_expert < was.loads@.len(),
    ensures
        now.at_expert == was.at_expert && now.at_tensor == was.at_tensor ==> got_total(now, f)
            == got_total(was, f),
        now.at_expert == was.at_expert && now.at_tensor == was.at_tensor + 1 && was.at_tensor
            < was.load().tensors@.len() ==> got_total(now, f) == got_total(was, f) + f(
            was.tensor(),
        ),
        now.at_expert == was.at_expert + 1 && now.at_tensor == 0 && was.at_tensor
            == was.load().tensors@.len() ==> got_total(now, f) == got_total(was, f),
{
    let e = was.at_expert as int;
    let t = was.at_tensor as int;
    let ts = was.load().tensors@;
    if t < ts.len() {
        lemma_tensors_prefix(ts, t, f);
    } else {
        assert(ts.take(t) == ts);
    }
    lemma_plan_prefix(was.loads@, e, f);
    if now.at_expert < now.loads@.len() && now.at_tensor == 0 {
        assert(now.load().tensors@.take(0) == Seq::<TensorLoad>::empty());
    }
}

// ---------------------------------------------------------------------------
// Loading and reusing, step by step
// ---------------------------------------------------------------------------

/// The run stands before a tensor that it is to ask for.
spec fn asks(run: MoeRun) -> bool {
    !run.waiting && !run.finished() && run.begun && run.at_tensor < run.load().tensors@.len()
}

/// What the run waits for.
spec fn pending(run: MoeRun, f: spec_fn(TensorLoad) -> nat) -> nat {
    if run.waiting {
        f(run.tensor())
    } else {
        0
    }
}

/// All that the run has asked for was uploaded.
spec fn loads_so_far(run: MoeRun) -> bool {
    &&& run.tally.weight_loaded == got_total(run, weights()) + pending(run, weights())
    &&& run.tally.scale_loaded == got_total(run, scales()) + pending(run, scales())
    &&& run.tally.weight_reused == 0
    &&& run.tally.scale_reused == 0
}

/// All that the run has asked for was found.
spec fn reuses_so_far(run: MoeRun) -> bool {
    &&& !run.waiting
    &&& run.tally.weight_reused == got_total(run, weights())
    &&& run.tally.scale_reused == got_total(run, scales())
    &&& run.tally.weight_loaded == 0
    &&& run.tally.scale_loaded == 0
}

/// The next tensor fits into the tally.
proof fn lemma_tally_room(run: MoeRun)
    requires
        run.wf(),
        asks(run),
    ensures
        run.tally.total() + run.tensor().bytes <= usize::MAX,
{
    let (e, t) = (run.at_expert as int, run.at_tensor as int);
    session::lemma_tensor_sum_prefix(run.load().tensors@, t, Part::Whole);
    session::lemma_tensor_sum_prefix(run.load().tensors@, t + 1, Part::Whole);
    session::lemma_load_sum_prefix(run.loads@, e, Part::Whole);
    session::lemma_load_sum_prefix(run.loads@, e + 1, Part::Whole);
}

proof fn lemma_loaded_step<B>(a: Moment<B>, b: Moment<B>)
    requires
        a.run.wf(),
        follows(a, b),
        loads_so_far(a.run),
        asks(a.run) ==> session::served(a.cache, a.run.key(), a.run.bypass) is None,
    ensures
        loads_so_far(b.run),
        b.run.keeps_plan(a.run),
{
    if !a.run.finished() {
        lemma_got_step(a.run, b.run, weights());
        lemma_got_step(a.run, b.run, scales());
        if asks(a.run) {
            lemma_tally_room(a.run);
        }
    }
}

proof fn lemma_reused_step<B>(a: Moment<B>, b: Moment<B>)
    requires
        a.run.wf(),
        follows(a, b),
        reuses_so_far(a.run),
        asks(a.run) ==> session::served(a.cache, a.run.key(), a.run.bypass) is Some,
    ensures
        reuses_so_far(b.run),
        b.run.keeps_plan(a.run),
{
    if !a.run.finished() {
        lemma_got_step(a.run, b.run, weights());
        lemma_got_step(a.run, b.run, scales());
        if asks(a.run) {
            lemma_tally_room(a.run);
        }
    }
}

// ---------------------------------------------------------------------------
// Runs without a cache
// ---------------------------------------------------------------------------

proof fn lemma_uncached<B>(h: Seq<Moment<B>>, k: int)
    requires
        is_run(h),
        h[0].cache is None,
        0 <= k < h.len(),
    ensures
        h[k].cache is None,
        loads_so_far(h[k].run),
    decreases k,
{
    if k == 0 {
        lemma_got_none(h[0].run, weights());
        lemma_got_none(h[0].run, scales());
    } else {
        lemma_uncached(h, k - 1);
        assert(follows(h[k - 1], h[k]));
        lemma_loaded_step(h[k - 1], h[k]);
    }
}

/// Without a cache a run uploads every byte of its plan.
pub proof fn uncached_runs_load_everything<B>(h: Seq<Moment<B>>)
    requires
        is_run(h),
        h[0].cache is None,
    ensures
        loaded_all(h.last().run),
{
    lemma_uncached(h, h.len() - 1);
    lemma_got_everything(h.last().run, weights());
    lemma_got_everything(h.last().run, scales());
}

// ---------------------------------------------------------------------------
// Runs that find everything
// ---------------------------------------------------------------------------

/// The cache after a run has found what it has got so far.
spec fn found_so_far<B>(run: MoeRun, start: CudaExpertCache<B>, c: CudaExpertCache<B>) -> bool {
    &&& c.wf()
    &&& c.same_limits(start)
    &&& residency::all_resident(run, c)
    &&& c.entries@.to_multiset() == start.entries@.to_multiset()
    &&& cache::total_bytes(c.entries@, true) == cache::total_bytes(start.entries@, true)
    &&& c.resident_bytes == start.resident_bytes
    &&& c.miss_count == start.miss_count
    &&& c.eviction_count == start.eviction_count
    &&& c.hit_count == start.hit_count + got_total(run, each())
}

proof fn lemma_found<B>(h: Seq<Moment<B>>, start: CudaExpertCache<B>, k: int)
    requires
        is_run(h),
        h[0].cache == Some(start),
        start.wf(),
        residency::all_resident(h[0].run, start),
        start.hit_count + plan_total(h[0].run.loads@, each()) <= usize::MAX,
        0 <= k < h.len(),
    ensures
        h[k].cache is Some,
        found_so_far(h[k].run, start, h[k].cache->0),
        reuses_so_far(h[k].run),
        h[k].run.keeps_plan(h[0].run),
    decreases k,
{
    if k == 0 {
        lemma_got_none(h[0].run, weights());
        lemma_got_none(h[0].run, scales());
        lemma_got_none(h[0].run, each());
    } else {
        lemma_found(h, start, k - 1);
        let (a, b) = (h[k - 1], h[k]);
        assert(follows(a, b));
        let step = choose|step: MoeStep<B>| #[trigger]
            session::advanced(a.run, b.run, a.cache, b.cache, step);
        let (x, y) = (a.cache->0, b.cache->0);
        residency::resident_runs_upload_nothing(a.run, b.run, x, y, step);
        if asks(a.run) {
            let (e, t) = (a.run.at_expert as int, a.run.at_tensor as int);
            assert(residency::key_at(a.run, e, t) == a.run.key());
            assert(x.holds(a.run.key()));
            cache::touch_keeps_entries(x.entries@, a.run.key());
            cache::position_is_exact(x.entries@, a.run.key());
            let v = cache::position(x.entries@, a.run.key())->0;
            cache::lemma_total_remove(x.entries@, v, true);
            cache::lemma_total_push(x.entries@.remove(v), x.entries@[v], true);
        }
        lemma_reused_step(a, b);
        if !a.run.finished() {
            lemma_got_step(a.run, b.run, each());
            lemma_got_within(b.run, each());
        }
    }
}

/// What a run has got is part of its plan.
proof fn lemma_got_within(run: MoeRun, f: spec_fn(TensorLoad) -> nat)
    requires
        run.wf(),
    ensures
        got_total(run, f) <= plan_total(run.loads@, f),
{
    let loads = run.loads@;
    let e = run.at_expert as int;
    lemma_plan_part(loads, e, f);
    if e < loads.len() {
        lemma_plan_prefix(loads, e, f);
        lemma_plan_part(loads, e + 1, f);
        lemma_tensors_part(run.load().tensors@, run.at_tensor as int, f);
    }
}

proof fn lemma_plan_part(loads: Seq<ExpertLoad>, k: int, f: spec_fn(TensorLoad) -> nat)
    requires
        0 <= k <= loads.len(),
    ensures
        plan_total(loads.take(k), f) <= plan_total(loads, f),
    decreases loads.len() - k,
{
    if k < loads.len() {
        lemma_plan_prefix(loads, k, f);
        lemma_plan_part(loads, k + 1, f);
    } else {
        assert(loads.take(k) == loads);
    }
}

proof fn lemma_tensors_part(ts: Seq<TensorLoad>, k: int, f: spec_fn(TensorLoad) -> nat)
    requires
        0 <= k <= ts.len(),
    ensures
        tensors_total(ts.take(k), f) <= tensors_total(ts, f),
    decreases ts.len() - k,
{
    if k < ts.len() {
        lemma_tensors_prefix(ts, k, f);
        lemma_tensors_part(ts, k + 1, f);
    } else {
        assert(ts.take(k) == ts);
    }
}

/// A run that begins with all its tensors resident uploads nothing: every byte of its
/// plan is reused, each tensor is a hit, none is a miss, and the same entries are
/// cached.
pub proof fn resident_runs_reuse_everything<B>(h: Seq<Moment<B>>, start: CudaExpertCache<B>)
    requires
        is_run(h),
        h[0].cache == Some(start),
        start.wf(),
        residency::all_resident(h[0].run, start),
        start.hit_count + plan_total(h[0].run.loads@, each()) <= usize::MAX,
    ensures
        reused_all(h.last().run),
        h.last().run.tally.weight_reused + h.last().run.tally.scale_reused == session::load_sum(
            h[0].run.loads@,
            Part::Whole,
        ),
        h.last().cache matches Some(end) && {
            &&& end.wf()
            &&& end.same_limits(start)
            &&& residency::all_resident(h[0].run, end)
            &&& end.entries@.to_multiset() == start.entries@.to_multiset()
            &&& cache::total_bytes(end.entries@, true) == cache::total_bytes(start.entries@, true)
            &&& end.resident_bytes == start.resident_bytes
            &&& end.miss_count == start.miss_count
            &&& end.eviction_count == start.eviction_count
            &&& end.hit_count == start.hit_count + plan_total(h[0].run.loads@, each())
        },
{
    lemma_found(h, start, h.len() - 1);
    lemma_got_everything(h.last().run, weights());
    lemma_got_everything(h.last().run, scales());
    lemma_got_everything(h.last().run, each());
    weights_and_scales(h[0].run.loads@);
    let end = h.last().cache->0;
    let (first, last) = (h[0].run, h.last().run);
    assert forall|i: int, t: int|
        #![trigger residency::key_at(first, i, t)]
        residency::in_plan(first.loads@, i, t) implies end.holds(
        residency::key_at(first, i, t),
    ) by {
        assert(residency::key_at(first, i, t) == residency::key_at(last, i, t));
    }
}

// ---------------------------------------------------------------------------
// Runs that fit
// ---------------------------------------------------------------------------

proof fn lemma_kept_up<B>(h: Seq<Moment<B>>, start: CudaExpertCache<B>, k: int)
    requires
        is_run(h),
        h[0].cache == Some(start),
        start.wf(),
        residency::plan_fits(h[0].run, start),
        0 <= k < h.len(),
    ensures
        h[k].cache is Some,
        residency::keeps_up(h[k].run, h[k].cache->0),
        h[k].run.keeps_plan(h[0].run),
        (h[k].cache->0).same_limits(start),
    decreases k,
{
    if k == 0 {
        residency::fitting_runs_keep_up(h[0].run, start);
    } else {
        lemma_kept_up(h, start, k - 1);
        let (a, b) = (h[k - 1], h[k]);
        assert(follows(a, b));
        if a.run.waiting {
            let handle = choose|handle: Arc<B>| #[trigger]
                session::handed_over(a.run, b.run, a.cache, b.cache, handle);
            residency::uploads_keep_up(a.run, b.run, a.cache->0, b.cache->0, handle);
        } else {
            let step = choose|step: MoeStep<B>| #[trigger]
                session::advanced(a.run, b.run, a.cache, b.cache, step);
            residency::steps_keep_up(a.run, b.run, a.cache->0, b.cache->0, step);
        }
    }
}

/// Of two runs with the same plan, which fits into the cache, the second uploads
/// nothing: every byte is reused and each tensor is a hit. Between them counters may
/// be reset.
pub proof fn second_runs_reuse_everything<B>(
    one: Seq<Moment<B>>,
    two: Seq<Moment<B>>,
    start: CudaExpertCache<B>,
    between: CudaExpertCache<B>,
)
    requires
        is_run(one),
        is_run(two),
        two[0].run.same_plan(one[0].run),
        one[0].cache == Some(start),
        start.wf(),
        residency::plan_fits(one[0].run, start),
        two[0].cache == Some(between),
        between.wf(),
        one.last().cache matches Some(c) && between.entries@ == c.entries@
            && between.capacity_bytes == c.capacity_bytes,
        between.hit_count + plan_total(two[0].run.loads@, each()) <= usize::MAX,
    ensures
        reused_all(two.last().run),
        two.last().run.tally.weight_reused + two.last().run.tally.scale_reused
            == session::load_sum(one[0].run.loads@, Part::Whole),
        two.last().cache matches Some(end) && {
            &&& end.hit_count == between.hit_count + plan_total(one[0].run.loads@, each())
            &&& end.miss_count == between.miss_count
            &&& end.eviction_count == between.eviction_count
            &&& end.resident_bytes == between.resident_bytes
        },
{
    lemma_kept_up(one, start, one.len() - 1);
    let c = one.last().cache->0;
    session::lemma_load_sum_same(two[0].run.loads@, one[0].run.loads@, Part::Whole);
    lemma_plan_same(two[0].run.loads@, one[0].run.loads@, each());
    residency::finished_runs_stay_resident(one.last().run, two[0].run, c);
    let next = two[0].run;
    assert forall|i: int, t: int|
        #![trigger residency::key_at(next, i, t)]
        residency::in_plan(next.loads@, i, t) implies between.holds(
        residency::key_at(next, i, t),
    ) by {
        assert(c.holds(residency::key_at(next, i, t)));
    }
    resident_runs_reuse_everything(two, between);
}

// ---------------------------------------------------------------------------
// Runs that find nothing
// ---------------------------------------------------------------------------

/// No two tensors of the plan have the same key.
pub open spec fn distinct_plan(run: MoeRun) -> bool {
    forall|i: int, t: int, j: int, u: int|
        #![trigger residency::key_at(run, i, t), residency::key_at(run, j, u)]
        residency::in_plan(run.loads@, i, t) && residency::in_plan(run.loads@, j, u)
            && residency::key_at(run, i, t) == residency::key_at(run, j, u) ==> i == j && t == u
}

/// The cache holds no tensor of the plan.
pub open spec fn none_resident<B>(run: MoeRun, c: CudaExpertCache<B>) -> bool {
    forall|i: int, t: int|
        #![trigger residency::key_at(run, i, t)]
        residency::in_plan(run.loads@, i, t) ==> !c.holds(residency::key_at(run, i, t))
}

/// The cache holds no tensor that the run has not got yet.
spec fn ahead_is_missing<B>(run: MoeRun, c: CudaExpertCache<B>) -> bool {
    forall|i: int, t: int|
        #![trigger residency::key_at(run, i, t)]
        residency::in_plan(run.loads@, i, t) && !residency::has_got(run, i, t) ==> !c.holds(
            residency::key_at(run, i, t),
        )
}

proof fn lemma_holds<B>(c: CudaExpertCache<B>, key: ExpertCacheKey)
    requires
        c.wf(),
    ensures
        c.holds(key) <==> exists|j: int|
            0 <= j < c.entries@.len() && (#[trigger] c.entries@[j]).key == key,
{
    cache::position_is_exact(c.entries@, key);
    if c.holds(key) {
        let j = cache::position(c.entries@, key)->0;
        assert(c.entries@[j].key == key);
    }
}

/// Taking in one tensor brings no other key.
proof fn lemma_insert_brings<B>(
    x: CudaExpertCache<B>,
    y: CudaExpertCache<B>,
    key: ExpertCacheKey,
    handle: Arc<B>,
    size: usize,
    other: ExpertCacheKey,
)
    requires
        x.wf(),
        y.wf(),
        !x.holds(key),
        cache::inserted(x, y, key, handle, size),
        other != key,
        y.holds(other),
    ensures
        x.holds(other),
{
    lemma_holds(y, other);
    lemma_holds(x, other);
    if size <= x.capacity_bytes {
        let kept = cache::make_room(x.entries@, size as nat, x.capacity_bytes as nat);
        let j = choose|j: int| 0 <= j < y.entries@.len() && (#[trigger] y.entries@[j]).key == other;
        assert(j < kept.len());
        assert(kept[j] == y.entries@[j]);
        assert(kept.contains(kept[j]));
        cache::make_room_is_subset(
            x.entries@,
            size as nat,
            x.capacity_bytes as nat,
            kept[j],
        );
        let m = choose|m: int| 0 <= m < x.entries@.len() && x.entries@[m] == kept[j];
        assert(x.entries@[m].key == other);
    }
}

proof fn lemma_missing_step<B>(a: Moment<B>, b: Moment<B>)
    requires
        a.run.wf(),
        follows(a, b),
        a.cache is Some,
        (a.cache->0).wf(),
        distinct_plan(a.run),
        ahead_is_missing(a.run, a.cache->0),
    ensures
        b.cache is Some,
        (b.cache->0).wf(),
        b.run.keeps_plan(a.run),
        (b.cache->0).same_limits(a.cache->0),
        distinct_plan(b.run),
        ahead_is_missing(b.run, b.cache->0),
        asks(a.run) ==> session::served(a.cache, a.run.key(), a.run.bypass) is None,
        asks(a.run) ==> (b.cache->0).entries@ == (a.cache->0).entries@,
{
    let (x, y) = (a.cache->0, b.cache->0);
    let (e, t0) = (a.run.at_expert as int, a.run.at_tensor as int);
    if asks(a.run) || a.run.waiting {
        assert(residency::key_at(a.run, e, t0) == a.run.key());
        assert(residency::in_plan(a.run.loads@, e, t0));
        assert(!residency::has_got(a.run, e, t0));
        assert(!x.holds(a.run.key()));
    }
    assert forall|i: int, t: int, j: int, u: int|
        #![trigger residency::key_at(b.run, i, t), residency::key_at(b.run, j, u)]
        residency::in_plan(b.run.loads@, i, t) && residency::in_plan(b.run.loads@, j, u)
            && residency::key_at(b.run, i, t) == residency::key_at(b.run, j, u) implies i == j && t
        == u by {
        assert(residency::key_at(b.run, i, t) == residency::key_at(a.run, i, t));
        assert(residency::key_at(b.run, j, u) == residency::key_at(a.run, j, u));
    }
    assert forall|i: int, t: int|
        #![trigger residency::key_at(b.run, i, t)]
        residency::in_plan(b.run.loads@, i, t) && !residency::has_got(b.run, i, t) implies !y.holds(
        residency::key_at(b.run, i, t),
    ) by {
        let key = residency::key_at(b.run, i, t);
        assert(key == residency::key_at(a.run, i, t));
        assert(!residency::has_got(a.run, i, t));
        assert(!x.holds(key));
        if a.run.waiting {
            let handle = choose|handle: Arc<B>| #[trigger]
                session::handed_over(a.run, b.run, a.cache, b.cache, handle);
            assert(!(i == e && t == t0));
            assert(key != a.run.key());
            if !a.run.bypass && y.holds(key) {
                lemma_insert_brings(x, y, a.run.key(), handle, a.run.tensor().bytes, key);
            }
        }
    }
}

proof fn lemma_cold<B>(h: Seq<Moment<B>>, k: int)
    requires
        is_run(h),
        h[0].cache is Some,
        (h[0].cache->0).wf(),
        distinct_plan(h[0].run),
        none_resident(h[0].run, h[0].cache->0),
        0 <= k < h.len(),
    ensures
        h[k].cache is Some,
        (h[k].cache->0).wf(),
        h[k].run.keeps_plan(h[0].run),
        (h[k].cache->0).same_limits(h[0].cache->0),
        distinct_plan(h[k].run),
        ahead_is_missing(h[k].run, h[k].cache->0),
        loads_so_far(h[k].run),
    decreases k,
{
    if k == 0 {
        lemma_got_none(h[0].run, weights());
        lemma_got_none(h[0].run, scales());
    } else {
        lemma_cold(h, k - 1);
        assert(follows(h[k - 1], h[k]));
        lemma_missing_step(h[k - 1], h[k]);
        lemma_loaded_step(h[k - 1], h[k]);
    }
}

/// A run that begins with none of its tensors resident uploads every byte of its plan,
/// however large the cache is.
pub proof fn cold_runs_load_everything<B>(h: Seq<Moment<B>>, start: CudaExpertCache<B>)
    requires
        is_run(h),
        h[0].cache == Some(start),
        start.wf(),
        distinct_plan(h[0].run),
        none_resident(h[0].run, start),
    ensures
        loaded_all(h.last().run),
        h.last().run.tally.weight_loaded + h.last().run.tally.scale_loaded == session::load_sum(
            h[0].run.loads@,
            Part::Whole,
        ),
{
    lemma_cold(h, h.len() - 1);
    lemma_got_everything(h.last().run, weights());
    lemma_got_everything(h.last().run, scales());
    weights_and_scales(h[0].run.loads@);
}

// ---------------------------------------------------------------------------
// Runs that need room
// ---------------------------------------------------------------------------

/// The plan of a run, none of which is resident, fits into the cache once the entries
/// of `front` that are not pinned have made room; the entries of `recent`, which were
/// used after those of `front`, need not.
pub open spec fn room_behind<B>(
    run: MoeRun,
    c: CudaExpertCache<B>,
    front: Seq<CacheEntry<B>>,
    recent: Seq<CacheEntry<B>>,
) -> bool {
    &&& c.wf()
    &&& c.resident_bytes <= c.capacity_bytes
    &&& c.entries@ == front + recent
    &&& distinct_plan(run)
    &&& none_resident(run, c)
    &&& cache::total_bytes(front, true) + cache::total_bytes(recent, false) + session::load_sum(
        run.loads@,
        Part::Whole,
    ) <= c.capacity_bytes
}

/// What stays of `front` comes first, then all of `recent`, then what the run has got.
spec fn layered<B>(
    run: MoeRun,
    s: Seq<CacheEntry<B>>,
    front: Seq<CacheEntry<B>>,
    recent: Seq<CacheEntry<B>>,
    q: int,
) -> bool {
    let p = q + recent.len();
    &&& 0 <= q && p <= s.len()
    &&& s.subrange(q, p) == recent
    &&& forall|j: int| 0 <= j < q ==> front.contains(#[trigger] s[j])
    &&& cache::total_bytes(s.take(q), true) == cache::total_bytes(front, true)
    &&& cache::total_bytes(s.skip(p), false) == residency::got_bytes(run)
    &&& cache::total_bytes(s.skip(p), true) == 0
    &&& forall|j: int| p <= j < s.len() ==> got_entry(run, #[trigger] s[j])
    &&& forall|i: int, t: int|
        #![trigger residency::has_got(run, i, t)]
        residency::has_got(run, i, t) ==> found_from(s, p, residency::key_at(run, i, t))
}

/// The entry is that of a tensor that the run has got.
spec fn got_entry<B>(run: MoeRun, e: CacheEntry<B>) -> bool {
    exists|i: int, t: int| #[trigger]
        residency::has_got(run, i, t) && residency::key_at(run, i, t) == e.key
            && run.loads@[i].tensors@[t].bytes == e.size
}

/// An entry of `key` stands at `p` or after it.
spec fn found_from<B>(s: Seq<CacheEntry<B>>, p: int, key: ExpertCacheKey) -> bool {
    exists|j: int| p <= j < s.len() && (#[trigger] s[j]).key == key
}

/// The cache is layered, and has room for the rest of the plan.
spec fn layers<B>(
    run: MoeRun,
    c: CudaExpertCache<B>,
    front: Seq<CacheEntry<B>>,
    recent: Seq<CacheEntry<B>>,
) -> bool {
    &&& !run.bypass
    &&& c.resident_bytes <= c.capacity_bytes
    &&& cache::total_bytes(front, true) + cache::total_bytes(recent, false) + session::load_sum(
        run.loads@,
        Part::Whole,
    ) <= c.capacity_bytes
    &&& exists|q: int| layered(run, c.entries@, front, recent, q)
}

proof fn lemma_got_entry<B>(was: MoeRun, now: MoeRun, e: CacheEntry<B>)
    requires
        now.keeps_plan(was),
        forall|i: int, t: int|
            residency::has_got(was, i, t) ==> #[trigger] residency::has_got(now, i, t),
        got_entry(was, e),
    ensures
        got_entry(now, e),
{
    let (i, t) = choose|i: int, t: int| #[trigger]
        residency::has_got(was, i, t) && residency::key_at(was, i, t) == e.key
            && was.loads@[i].tensors@[t].bytes == e.size;
    assert(residency::has_got(now, i, t) && residency::key_at(now, i, t) == e.key);
}

proof fn lemma_layers_step<B>(
    a: Moment<B>,
    b: Moment<B>,
    front: Seq<CacheEntry<B>>,
    recent: Seq<CacheEntry<B>>,
)
    requires
        a.run.wf(),
        follows(a, b),
        a.cache is Some,
        (a.cache->0).wf(),
        distinct_plan(a.run),
        ahead_is_missing(a.run, a.cache->0),
        layers(a.run, a.cache->0, front, recent),
    ensures
        layers(b.run, b.cache->0, front, recent),
{
    lemma_missing_step(a, b);
    let (x, y) = (a.cache->0, b.cache->0);
    if a.run.waiting {
        let handle = choose|handle: Arc<B>| #[trigger]
            session::handed_over(a.run, b.run, a.cache, b.cache, handle);
        let (e, t0) = (a.run.at_expert as int, a.run.at_tensor as int);
        assert(residency::key_at(a.run, e, t0) == a.run.key());
        assert(residency::in_plan(a.run.loads@, e, t0));
        assert(!residency::has_got(a.run, e, t0));
        assert(!x.holds(a.run.key()));
        lemma_layers_insert(a.run, b.run, x, y, handle, front, recent);
    } else if !a.run.finished() {
        session::lemma_load_sum_prefix(a.run.loads@, a.run.at_expert as int, Part::Whole);
        session::lemma_load_sum_prefix(a.run.loads@, a.run.at_expert + 1, Part::Whole);
        assert(y.entries@ == x.entries@);
        residency::lemma_got_same(a.run, b.run);
        let q = choose|q: int| layered(a.run, x.entries@, front, recent, q);
        let p = q + recent.len();
        assert forall|j: int| p <= j < y.entries@.len() implies got_entry(
            b.run,
            #[trigger] y.entries@[j],
        ) by {
            lemma_got_entry(a.run, b.run, x.entries@[j]);
        }
        assert forall|i: int, t: int|
            #![trigger residency::has_got(b.run, i, t)]
            residency::has_got(b.run, i, t) implies found_from(
            y.entries@,
            p,
            residency::key_at(b.run, i, t),
        ) by {
            assert(residency::has_got(a.run, i, t));
            assert(residency::key_at(b.run, i, t) == residency::key_at(a.run, i, t));
        }
        assert(layered(b.run, y.entries@, front, recent, q));
    }
}

/// Room for `e` is made in front of `q` alone, where what stands there leaves it.
proof fn lemma_room_in_front<B>(
    s: Seq<CacheEntry<B>>,
    q: int,
    p: int,
    size: nat,
    capacity: nat,
    e: CacheEntry<B>,
) -> (n: int)
    requires
        cache::distinct_keys(s),
        forall|j: int| 0 <= j < s.len() ==> (#[trigger] s[j]).key != e.key,
        0 <= q <= p <= s.len(),
        cache::total_bytes(s.take(q), true) + cache::total_bytes(s.subrange(q, p), false)
            + cache::total_bytes(s.skip(p), false) + size <= capacity,
    ensures
        ({
            let r = cache::make_room(s, size, capacity).push(e);
            let m = n + (p - q);
            &&& 0 <= n && m < r.len()
            &&& r.subrange(n, m) == s.subrange(q, p)
            &&& r.skip(m) == s.skip(p).push(e)
            &&& cache::total_bytes(r.take(n), true) == cache::total_bytes(s.take(q), true)
            &&& forall|j: int| 0 <= j < n ==> s.take(q).contains(#[trigger] r[j])
        }),
{
    let d = p - q;
    let tail = s.skip(q);
    assert(tail.take(d) == s.subrange(q, p));
    assert(tail.skip(d) == s.skip(p));
    residency::lemma_total_split(tail, d, false);
    residency::lemma_total_split(s, q, true);
    let kept = cache::make_room(s, size, capacity);
    let n = residency::lemma_recent_stay(s, q, size, capacity);
    cache::lemma_make_room(s, size, capacity, e.key);
    residency::lemma_total_split(kept, n, true);
    lemma_shifted(s, kept, q, p, n, e);
    let r = kept.push(e);
    assert(r.take(n) == kept.take(n));
    assert forall|j: int| 0 <= j < n implies s.take(q).contains(#[trigger] r[j]) by {
        assert(kept[j] == r[j]);
    }
    n
}

/// Two lists with the same end, and one entry more behind the second.
proof fn lemma_shifted<B>(
    s: Seq<CacheEntry<B>>,
    kept: Seq<CacheEntry<B>>,
    q: int,
    p: int,
    n: int,
    e: CacheEntry<B>,
)
    requires
        0 <= q <= p <= s.len(),
        0 <= n <= kept.len(),
        kept.skip(n) == s.skip(q),
    ensures
        n + (p - q) < kept.push(e).len(),
        kept.push(e).subrange(n, n + (p - q)) == s.subrange(q, p),
        kept.push(e).skip(n + (p - q)) == s.skip(p).push(e),
{
    let d = p - q;
    let (r, m) = (kept.push(e), n + d);
    let (head, tail) = (kept.take(n), s.skip(q));
    assert(kept == head + kept.skip(n));
    assert(r == head + tail.push(e));
    assert(tail.take(d) == s.subrange(q, p));
    assert(tail.skip(d) == s.skip(p));
    assert(r.subrange(n, m) == tail.take(d));
    assert(r.skip(m) == tail.skip(d).push(e));
}

/// The run gets its next tensor: the end of the list has an entry for it.
proof fn lemma_next_entry<B>(
    was: MoeRun,
    now: MoeRun,
    s: Seq<CacheEntry<B>>,
    r: Seq<CacheEntry<B>>,
    p: int,
    m: int,
    e: CacheEntry<B>,
)
    requires
        now.keeps_plan(was),
        was.at_expert < was.loads@.len(),
        was.at_tensor < was.load().tensors@.len(),
        now.at_expert == was.at_expert,
        now.at_tensor == was.at_tensor + 1,
        e.key == was.key(),
        e.size == was.tensor().bytes,
        0 <= p <= s.len(),
        0 <= m <= r.len(),
        r.skip(m) == s.skip(p).push(e),
        forall|j: int| p <= j < s.len() ==> got_entry(was, #[trigger] s[j]),
    ensures
        forall|j: int| m <= j < r.len() ==> got_entry(now, #[trigger] r[j]),
{
    assert(r.skip(m).len() == s.skip(p).len() + 1);
    assert forall|j: int| m <= j < r.len() implies got_entry(now, #[trigger] r[j]) by {
        assert(r.skip(m)[j - m] == r[j]);
        if j < r.len() - 1 {
            assert(s.skip(p)[j - m] == s[p + (j - m)]);
            lemma_got_entry(was, now, r[j]);
        } else {
            let (i, t) = (was.at_expert as int, was.at_tensor as int);
            assert(residency::has_got(now, i, t) && residency::key_at(now, i, t) == e.key);
        }
    }
}

/// The run gets its next tensor: all that it has got is found at the end of the list.
proof fn lemma_next_found<B>(
    was: MoeRun,
    now: MoeRun,
    s: Seq<CacheEntry<B>>,
    r: Seq<CacheEntry<B>>,
    p: int,
    m: int,
    e: CacheEntry<B>,
)
    requires
        now.keeps_plan(was),
        was.at_expert < was.loads@.len(),
        was.at_tensor < was.load().tensors@.len(),
        now.at_expert == was.at_expert,
        now.at_tensor == was.at_tensor + 1,
        e.key == was.key(),
        0 <= p <= s.len(),
        0 <= m <= r.len(),
        r.skip(m) == s.skip(p).push(e),
        forall|i: int, t: int|
            #![trigger residency::has_got(was, i, t)]
            residency::has_got(was, i, t) ==> found_from(s, p, residency::key_at(was, i, t)),
    ensures
        forall|i: int, t: int|
            #![trigger residency::has_got(now, i, t)]
            residency::has_got(now, i, t) ==> found_from(r, m, residency::key_at(now, i, t)),
{
    assert(r.skip(m).len() == s.skip(p).len() + 1);
    assert forall|i: int, t: int|
        #![trigger residency::has_got(now, i, t)]
        residency::has_got(now, i, t) implies found_from(r, m, residency::key_at(now, i, t)) by {
        let k = residency::key_at(now, i, t);
        if residency::has_got(was, i, t) {
            assert(residency::key_at(was, i, t) == k);
            let j = choose|j: int| p <= j < s.len() && (#[trigger] s[j]).key == k;
            assert(r.skip(m)[j - p] == s.skip(p)[j - p]);
            assert(r[m + (j - p)].key == k);
        } else {
            assert(k == e.key);
            assert(r.skip(m)[s.skip(p).len() as int] == e);
            assert(r[r.len() - 1].key == k);
        }
    }
}

/// A list that is layered stays so when the run's next tensor is taken in.
proof fn lemma_layered_insert<B>(
    was: MoeRun,
    now: MoeRun,
    s: Seq<CacheEntry<B>>,
    capacity: nat,
    front: Seq<CacheEntry<B>>,
    recent: Seq<CacheEntry<B>>,
    q: int,
    e: CacheEntry<B>,
) -> (n: int)
    requires
        was.wf(),
        now.keeps_plan(was),
        was.at_expert < was.loads@.len(),
        was.at_tensor < was.load().tensors@.len(),
        now.at_expert == was.at_expert,
        now.at_tensor == was.at_tensor + 1,
        layered(was, s, front, recent, q),
        cache::distinct_keys(s),
        forall|j: int| 0 <= j < s.len() ==> (#[trigger] s[j]).key != e.key,
        e.key == was.key(),
        e.size == was.tensor().bytes,
        !e.is_pinned(),
        cache::total_bytes(front, true) + cache::total_bytes(recent, false) + session::load_sum(
            was.loads@,
            Part::Whole,
        ) <= capacity,
    ensures
        layered(now, cache::make_room(s, e.size as nat, capacity).push(e), front, recent, n),
{
    let p = q + recent.len();
    let r = cache::make_room(s, e.size as nat, capacity).push(e);
    residency::lemma_got_next(was, now);
    let n = lemma_room_in_front(s, q, p, e.size as nat, capacity, e);
    let m = n + recent.len();
    cache::lemma_total_push(s.skip(p), e, false);
    cache::lemma_total_push(s.skip(p), e, true);
    assert forall|j: int| 0 <= j < n implies front.contains(#[trigger] r[j]) by {
        assert(s.take(q).contains(r[j]));
        let i = choose|i: int| 0 <= i < s.take(q).len() && s.take(q)[i] == r[j];
        assert(front.contains(s[i]));
    }
    lemma_next_entry(was, now, s, r, p, m, e);
    lemma_next_found(was, now, s, r, p, m, e);
    n
}

proof fn lemma_layers_insert<B>(
    was: MoeRun,
    now: MoeRun,
    x: CudaExpertCache<B>,
    y: CudaExpertCache<B>,
    handle: Arc<B>,
    front: Seq<CacheEntry<B>>,
    recent: Seq<CacheEntry<B>>,
)
    requires
        was.wf(),
        was.waiting,
        x.wf(),
        y.wf(),
        layers(was, x, front, recent),
        !x.holds(was.key()),
        session::handed_over(was, now, Some(x), Some(y), handle),
    ensures
        layers(now, y, front, recent),
{
    let key = was.key();
    let capacity = x.capacity_bytes as nat;
    let q = choose|q: int| layered(was, x.entries@, front, recent, q);
    cache::position_is_exact(x.entries@, key);
    residency::lemma_got_next(was, now);
    let e = y.entries@.last();
    let n = lemma_layered_insert(was, now, x.entries@, capacity, front, recent, q, e);
    assert(y.entries@ == cache::make_room(x.entries@, e.size as nat, capacity).push(e));
    assert(layered(now, y.entries@, front, recent, n));
}

proof fn lemma_layers<B>(
    h: Seq<Moment<B>>,
    front: Seq<CacheEntry<B>>,
    recent: Seq<CacheEntry<B>>,
    k: int,
)
    requires
        is_run(h),
        h[0].cache is Some,
        room_behind(h[0].run, h[0].cache->0, front, recent),
        0 <= k < h.len(),
    ensures
        layers(h[k].run, h[k].cache->0, front, recent),
    decreases k,
{
    lemma_cold(h, k);
    if k == 0 {
        let run = h[0].run;
        let s = (h[0].cache->0).entries@;
        let q = front.len() as int;
        assert(s.take(q) == front);
        assert(s.subrange(q, q + recent.len()) == recent);
        assert(s.skip(q + recent.len()) == Seq::<CacheEntry<B>>::empty());
        assert forall|j: int| 0 <= j < q implies front.contains(#[trigger] s[j]) by {
            assert(front[j] == s[j]);
        }
        assert(run.loads@.take(0) == Seq::<ExpertLoad>::empty());
        if run.loads@.len() > 0 {
            assert(run.load().tensors@.take(0) == Seq::<TensorLoad>::empty());
        }
        assert(layered(run, s, front, recent, q));
    } else {
        lemma_layers(h, front, recent, k - 1);
        lemma_cold(h, k - 1);
        assert(follows(h[k - 1], h[k]));
        lemma_layers_step(h[k - 1], h[k], front, recent);
    }
}

proof fn lemma_entry_within<B>(s: Seq<CacheEntry<B>>, j: int)
    requires
        0 <= j < s.len(),
    ensures
        s[j].size <= cache::total_bytes(s, false),
{
    cache::lemma_total_remove(s, j, false);
}

/// The key belongs to a tensor of the plan.
pub open spec fn plan_has(run: MoeRun, key: ExpertCacheKey) -> bool {
    exists|i: int, t: int|
        residency::in_plan(run.loads@, i, t) && #[trigger] residency::key_at(run, i, t) == key
}

/// The entry is that of a tensor of the plan.
pub open spec fn of_plan<B>(run: MoeRun, e: CacheEntry<B>) -> bool {
    exists|i: int, t: int|
        residency::in_plan(run.loads@, i, t) && #[trigger] residency::key_at(run, i, t) == e.key
            && run.loads@[i].tensors@[t].bytes == e.size
}

/// What a run leaves: first, up to `q`, what stays of `front`, then all of `recent`, and
/// last its own tensors.
pub open spec fn leaves<B>(
    run: MoeRun,
    s: Seq<CacheEntry<B>>,
    front: Seq<CacheEntry<B>>,
    recent: Seq<CacheEntry<B>>,
    q: int,
) -> bool {
    let p = q + recent.len();
    &&& 0 <= q && p <= s.len()
    &&& forall|j: int| 0 <= j < q ==> front.contains(#[trigger] s[j])
    &&& s.subrange(q, p) == recent
    &&& forall|j: int| p <= j < s.len() ==> of_plan(run, #[trigger] s[j])
    &&& cache::total_bytes(s.skip(p), false) == session::load_sum(run.loads@, Part::Whole)
}

/// A run that needs room takes it from the least recently used. It leaves all entries
/// of `recent`, adds all its own tensors, and of `front` only so much stays as fits
/// beside these. What was pinned is pinned.
pub proof fn least_recent_make_room<B>(
    h: Seq<Moment<B>>,
    start: CudaExpertCache<B>,
    front: Seq<CacheEntry<B>>,
    recent: Seq<CacheEntry<B>>,
) -> (q: int)
    requires
        is_run(h),
        h[0].cache == Some(start),
        room_behind(h[0].run, start, front, recent),
    ensures
        h.last().cache matches Some(end) && {
            let own = cache::total_bytes(recent, false) + session::load_sum(
                h[0].run.loads@,
                Part::Whole,
            );
            &&& end.wf()
            &&& end.same_limits(start)
            &&& own <= end.resident_bytes <= end.capacity_bytes
            &&& front.len() == 0 ==> end.resident_bytes == own
            &&& leaves(h[0].run, end.entries@, front, recent, q)
            &&& residency::all_resident(h[0].run, end)
            &&& cache::total_bytes(end.entries@, true) == cache::total_bytes(start.entries@, true)
            &&& forall|j: int|
                0 <= j < q ==> (#[trigger] end.entries@[j]).size + own <= end.capacity_bytes
        },
{
    let last = h.len() - 1;
    lemma_cold(h, last);
    lemma_layers(h, front, recent, last);
    let (first, run) = (h[0].run, h.last().run);
    let end = h.last().cache->0;
    let s = end.entries@;
    let q = choose|q: int| layered(run, s, front, recent, q);
    assert(run.loads@.take(run.at_expert as int) == run.loads@);
    lemma_layer_totals(run, s, front, recent, q);
    residency::lemma_total_split(start.entries@, front.len() as int, true);
    assert(start.entries@.take(front.len() as int) == front);
    assert(start.entries@.skip(front.len() as int) == recent);
    if front.len() == 0 {
        if q > 0 {
            assert(front.contains(s[0]));
        }
        assert(s.take(0) == Seq::<CacheEntry<B>>::empty());
    }
    lemma_layers_hold(first, run, end, front, recent, q);
    assert forall|j: int| 0 <= j < q implies (#[trigger] s[j]).size + cache::total_bytes(
        recent,
        false,
    ) + session::load_sum(first.loads@, Part::Whole) <= end.capacity_bytes by {
        lemma_entry_within(s.take(q), j);
    }
    q
}

/// The bytes of the layers.
proof fn lemma_layer_totals<B>(
    run: MoeRun,
    s: Seq<CacheEntry<B>>,
    front: Seq<CacheEntry<B>>,
    recent: Seq<CacheEntry<B>>,
    q: int,
)
    requires
        layered(run, s, front, recent, q),
    ensures
        cache::total_bytes(s, false) == cache::total_bytes(s.take(q), false) + cache::total_bytes(
            recent,
            false,
        ) + residency::got_bytes(run),
        cache::total_bytes(s, true) == cache::total_bytes(front, true) + cache::total_bytes(
            recent,
            true,
        ),
{
    let d = recent.len() as int;
    let tail = s.skip(q);
    assert(tail.take(d) == s.subrange(q, q + d));
    assert(tail.skip(d) == s.skip(q + d));
    residency::lemma_total_split(s, q, false);
    residency::lemma_total_split(tail, d, false);
    residency::lemma_total_split(s, q, true);
    residency::lemma_total_split(tail, d, true);
}

/// At the end of a run the last layer is its plan, all of which is resident.
proof fn lemma_layers_hold<B>(
    first: MoeRun,
    run: MoeRun,
    end: CudaExpertCache<B>,
    front: Seq<CacheEntry<B>>,
    recent: Seq<CacheEntry<B>>,
    q: int,
)
    requires
        run.finished(),
        run.keeps_plan(first),
        first.fresh(),
        end.wf(),
        layered(run, end.entries@, front, recent, q),
        session::load_sum(first.loads@, Part::Whole) <= end.capacity_bytes,
    ensures
        residency::all_resident(first, end),
        forall|j: int|
            q + recent.len() <= j < end.entries@.len() ==> of_plan(
                first,
                #[trigger] end.entries@[j],
            ),
{
    let s = end.entries@;
    let p = q + recent.len();
    assert forall|i: int| 0 <= i < first.loads@.len() implies session::tensor_sum(
        (#[trigger] first.loads@[i]).tensors@,
        Part::Whole,
    ) <= end.capacity_bytes by {
        session::lemma_load_sum_prefix(first.loads@, i, Part::Whole);
        session::lemma_load_sum_prefix(first.loads@, i + 1, Part::Whole);
    }
    assert forall|i: int, t: int|
        #![trigger residency::key_at(first, i, t)]
        residency::in_plan(first.loads@, i, t) implies end.holds(
        residency::key_at(first, i, t),
    ) by {
        assert(residency::has_got(run, i, t));
        assert(residency::key_at(first, i, t) == residency::key_at(run, i, t));
        lemma_holds(end, residency::key_at(run, i, t));
    }
    assert forall|j: int| p <= j < s.len() implies of_plan(first, #[trigger] s[j]) by {
        let (i, t) = choose|i: int, t: int| #[trigger]
            residency::has_got(run, i, t) && residency::key_at(run, i, t) == s[j].key
                && run.loads@[i].tensors@[t].bytes == s[j].size;
        assert(residency::key_at(first, i, t) == s[j].key);
    }
}

/// An expert that another run has crowded out is uploaded again. Where the tensors that
/// the second run asks for were the least recently used before the first, each too
/// large to stay beside what was used later and what the first run brought, the second
/// run uploads every byte of its plan. Between the runs counters may be reset.
pub proof fn crowded_out_runs_load_again<B>(
    one: Seq<Moment<B>>,
    two: Seq<Moment<B>>,
    start: CudaExpertCache<B>,
    between: CudaExpertCache<B>,
    front: Seq<CacheEntry<B>>,
    recent: Seq<CacheEntry<B>>,
)
    requires
        is_run(one),
        is_run(two),
        one[0].cache == Some(start),
        room_behind(one[0].run, start, front, recent),
        two[0].cache == Some(between),
        between.wf(),
        one.last().cache matches Some(c) && between.entries@ == c.entries@,
        distinct_plan(two[0].run),
        forall|key: ExpertCacheKey| #[trigger] plan_has(two[0].run, key) ==> !plan_has(one[0].run, key),
        forall|j: int|
            0 <= j < recent.len() ==> !plan_has(two[0].run, (#[trigger] recent[j]).key),
        forall|j: int|
            0 <= j < front.len() && plan_has(two[0].run, (#[trigger] front[j]).key)
                ==> front[j].size + cache::total_bytes(recent, false) + session::load_sum(
                one[0].run.loads@,
                Part::Whole,
            ) > start.capacity_bytes,
    ensures
        loaded_all(two.last().run),
        two.last().run.tally.weight_loaded + two.last().run.tally.scale_loaded
            == session::load_sum(two[0].run.loads@, Part::Whole),
{
    let q = least_recent_make_room(one, start, front, recent);
    let end = one.last().cache->0;
    let next = two[0].run;
    assert forall|i: int, t: int|
        #![trigger residency::key_at(next, i, t)]
        residency::in_plan(next.loads@, i, t) implies !between.holds(
        residency::key_at(next, i, t),
    ) by {
        let key = residency::key_at(next, i, t);
        assert(plan_has(next, key));
        lemma_holds(between, key);
        if between.holds(key) {
            let j = choose|j: int|
                0 <= j < between.entries@.len() && (#[trigger] between.entries@[j]).key == key;
            let e = end.entries@[j];
            let p = q + recent.len();
            if j < q {
                assert(front.contains(e));
                let m = choose|m: int| 0 <= m < front.len() && front[m] == e;
                assert(plan_has(next, front[m].key));
            } else if j < p {
                assert(end.entries@.subrange(q, p)[j - q] == e);
                assert(!plan_has(next, recent[j - q].key));
            } else {
                assert(of_plan(one[0].run, e));
                assert(plan_has(one[0].run, e.key));
            }
            assert(false);
        }
    }
    cold_runs_load_everything(two, between);
}

// ---------------------------------------------------------------------------
// Experts in turn
// ---------------------------------------------------------------------------

/// The plans of two runs share no tensor.
pub open spec fn apart(x: MoeRun, y: MoeRun) -> bool {
    forall|key: ExpertCacheKey| #[trigger] plan_has(x, key) ==> !plan_has(y, key)
}

proof fn lemma_same_plan_has(x: MoeRun, y: MoeRun, key: ExpertCacheKey)
    requires
        x.same_plan(y),
        plan_has(x, key),
    ensures
        plan_has(y, key),
{
    let (i, t) = choose|i: int, t: int|
        residency::in_plan(x.loads@, i, t) && #[trigger] residency::key_at(x, i, t) == key;
    assert(residency::key_at(y, i, t) == key);
}

/// A plan apart from those of all cached tensors is not resident.
proof fn lemma_none_resident<B>(run: MoeRun, c: CudaExpertCache<B>)
    requires
        c.wf(),
        forall|j: int| 0 <= j < c.entries@.len() ==> !plan_has(run, (#[trigger] c.entries@[j]).key),
    ensures
        none_resident(run, c),
{
    assert forall|i: int, t: int|
        #![trigger residency::key_at(run, i, t)]
        residency::in_plan(run.loads@, i, t) implies !c.holds(residency::key_at(run, i, t)) by {
        let key = residency::key_at(run, i, t);
        assert(plan_has(run, key));
        lemma_holds(c, key);
        if c.holds(key) {
            let j = choose|j: int| 0 <= j < c.entries@.len() && (#[trigger] c.entries@[j]).key == key;
            assert(!plan_has(run, c.entries@[j].key));
        }
    }
}

/// Five runs over an empty cache: of one plan twice, of a second, of a third, and of the
/// first again. The first and the second fit together, and so do the second and the
/// third, but beside these no tensor of the first does. Then the first run uploads its
/// plan, the next reuses it, the second and the third plan are uploaded, and the first,
/// which was used the longest ago, has made room and is uploaded again.
pub proof fn plans_in_turn<B>(h: Seq<Seq<Moment<B>>>, start: CudaExpertCache<B>)
    requires
        h.len() == 5,
        forall|k: int| 0 <= k < 5 ==> is_run(#[trigger] h[k]),
        h[1][0].run.same_plan(h[0][0].run),
        h[4][0].run.same_plan(h[0][0].run),
        apart(h[0][0].run, h[2][0].run),
        apart(h[0][0].run, h[3][0].run),
        apart(h[2][0].run, h[3][0].run),
        forall|k: int| 0 <= k < 5 ==> distinct_plan((#[trigger] h[k])[0].run),
        h[0][0].cache == Some(start),
        start.wf(),
        start.entries@.len() == 0,
        h[1][0].cache == h[0].last().cache,
        h[2][0].cache == h[1].last().cache,
        h[3][0].cache == h[2].last().cache,
        h[4][0].cache == h[3].last().cache,
        h[1][0].cache matches Some(c) && c.hit_count + plan_total(h[1][0].run.loads@, each())
            <= usize::MAX,
        ({
            let bytes = |k: int| session::load_sum(h[k][0].run.loads@, Part::Whole);
            &&& bytes(0) + bytes(2) <= start.capacity_bytes
            &&& bytes(2) + bytes(3) <= start.capacity_bytes
            &&& forall|i: int, t: int|
                #![trigger residency::key_at(h[0][0].run, i, t)]
                residency::in_plan(h[0][0].run.loads@, i, t) ==> h[0][0].run.loads@[i].tensors@[t].bytes
                    + bytes(2) + bytes(3) > start.capacity_bytes
        }),
    ensures
        loaded_all(h[0].last().run),
        reused_all(h[1].last().run),
        loaded_all(h[2].last().run),
        loaded_all(h[3].last().run),
        loaded_all(h[4].last().run),
        ({
            let bytes = |k: int| session::load_sum(h[k][0].run.loads@, Part::Whole);
            &&& h[0].last().cache matches Some(c) && c.resident_bytes == bytes(0)
            &&& h[1].last().cache matches Some(c) && c.resident_bytes == bytes(0)
            &&& h[2].last().cache matches Some(c) && c.resident_bytes == bytes(0) + bytes(2)
            &&& h[3].last().cache matches Some(c) && bytes(2) + bytes(3) <= c.resident_bytes
                <= start.capacity_bytes
        }),
{
    let none = Seq::<CacheEntry<B>>::empty();
    let (a, b, d) = (h[0][0].run, h[2][0].run, h[3][0].run);
    assert(is_run(h[0]) && is_run(h[1]) && is_run(h[2]) && is_run(h[3]) && is_run(h[4]));
    assert(distinct_plan(h[0][0].run) && distinct_plan(h[2][0].run) && distinct_plan(h[3][0].run)
        && distinct_plan(h[4][0].run));

    assert(start.entries@ == none + none);
    lemma_none_resident(a, start);
    cold_runs_load_everything(h[0], start);
    let q1 = least_recent_make_room(h[0], start, none, none);
    let end1 = h[0].last().cache->0;
    assert(q1 == 0) by {
        if q1 > 0 {
            assert(none.contains(end1.entries@[0]));
        }
    }

    let again = h[1][0].run;
    assert forall|i: int, t: int|
        #![trigger residency::key_at(again, i, t)]
        residency::in_plan(again.loads@, i, t) implies end1.holds(
        residency::key_at(again, i, t),
    ) by {
        assert(residency::key_at(again, i, t) == residency::key_at(a, i, t));
    }
    resident_runs_reuse_everything(h[1], end1);
    let end2 = h[1].last().cache->0;
    let old = end2.entries@;
    assert forall|j: int| 0 <= j < old.len() implies of_plan(a, #[trigger] old[j]) by {
        broadcast use vstd::seq_lib::group_to_multiset_ensures;

        assert(old.contains(old[j]));
        assert(end1.entries@.to_multiset().count(old[j]) > 0);
        assert(end1.entries@.contains(old[j]));
        let m = choose|m: int| 0 <= m < end1.entries@.len() && end1.entries@[m] == old[j];
        assert(of_plan(a, end1.entries@[m]));
    }
    assert forall|j: int| 0 <= j < old.len() implies plan_has(a, (#[trigger] old[j]).key) by {
        assert(of_plan(a, old[j]));
    }

    lemma_none_resident(b, end2);
    assert(old == none + old);
    cold_runs_load_everything(h[2], end2);
    let q3 = least_recent_make_room(h[2], end2, none, old);
    let end3 = h[2].last().cache->0;
    assert(q3 == 0) by {
        if q3 > 0 {
            assert(none.contains(end3.entries@[0]));
        }
    }
    let n = old.len() as int;
    let new = end3.entries@.skip(n);
    assert(end3.entries@ == old + new) by {
        assert(end3.entries@.subrange(0, n) == old);
        assert(end3.entries@.subrange(0, n) + new == end3.entries@);
    }
    residency::lemma_total_split(end3.entries@, n, true);
    assert(end3.entries@.take(n) == old);
    assert forall|j: int| 0 <= j < new.len() implies plan_has(b, (#[trigger] new[j]).key) by {
        assert(of_plan(b, end3.entries@[n + j]));
    }

    assert forall|j: int| 0 <= j < end3.entries@.len() implies !plan_has(
        d,
        (#[trigger] end3.entries@[j]).key,
    ) by {
        if j < n {
            assert(plan_has(a, old[j].key));
        } else {
            assert(plan_has(b, new[j - n].key));
        }
    }
    lemma_none_resident(d, end3);
    cold_runs_load_everything(h[3], end3);
    least_recent_make_room(h[3], end3, old, new);
    let end4 = h[3].last().cache->0;

    let back = h[4][0].run;
    assert forall|key: ExpertCacheKey| #[trigger] plan_has(back, key) implies !plan_has(d, key) by {
        lemma_same_plan_has(back, a, key);
    }
    assert forall|j: int| 0 <= j < new.len() implies !plan_has(back, (#[trigger] new[j]).key) by {
        if plan_has(back, new[j].key) {
            lemma_same_plan_has(back, a, new[j].key);
            assert(plan_has(b, new[j].key));
        }
    }
    assert forall|j: int|
        0 <= j < old.len() && plan_has(back, (#[trigger] old[j]).key) implies old[j].size
        + cache::total_bytes(new, false) + session::load_sum(d.loads@, Part::Whole)
        > end3.capacity_bytes by {
        assert(of_plan(a, old[j]));
        let (i, t) = choose|i: int, t: int|
            residency::in_plan(a.loads@, i, t) && #[trigger] residency::key_at(a, i, t)
                == old[j].key && a.loads@[i].tensors@[t].bytes == old[j].size;
        assert(a.loads@[i].tensors@[t].bytes == old[j].size);
    }
    crowded_out_runs_load_again(h[3], h[4], end3, end4, old, new);
}

// ---------------------------------------------------------------------------
// The plans of selected experts
// ---------------------------------------------------------------------------

proof fn lemma_three(ts: Seq<TensorLoad>, f: spec_fn(TensorLoad) -> nat)
    requires
        ts.len() >= 3,
    ensures
        tensors_total(ts.take(3), f) == f(ts[0]) + f(ts[1]) + f(ts[2]),
{
    assert(ts.take(0) == Seq::<TensorLoad>::empty());
    lemma_tensors_prefix(ts, 0, f);
    lemma_tensors_prefix(ts, 1, f);
    lemma_tensors_prefix(ts, 2, f);
}

proof fn lemma_six(ts: Seq<TensorLoad>, f: spec_fn(TensorLoad) -> nat)
    requires
        ts.len() == 6,
    ensures
        tensors_total(ts, f) == f(ts[0]) + f(ts[1]) + f(ts[2]) + f(ts[3]) + f(ts[4]) + f(ts[5]),
{
    lemma_three(ts, f);
    lemma_tensors_prefix(ts, 3, f);
    lemma_tensors_prefix(ts, 4, f);
    lemma_tensors_prefix(ts, 5, f);
    assert(ts.take(6) == ts);
}

/// A plan whose experts are all alike.
proof fn lemma_uniform(loads: Seq<ExpertLoad>, f: spec_fn(TensorLoad) -> nat, n: nat)
    requires
        forall|i: int|
            0 <= i < loads.len() ==> tensors_total((#[trigger] loads[i]).tensors@, f) == n,
    ensures
        plan_total(loads, f) == loads.len() * n,
    decreases loads.len(),
{
    if loads.len() > 0 {
        let rest = loads.drop_last();
        assert forall|i: int| 0 <= i < rest.len() implies tensors_total(
            (#[trigger] rest[i]).tensors@,
            f,
        ) == n by {
            assert(rest[i] == loads[i]);
        }
        lemma_uniform(rest, f, n);
        assert(tensors_total(loads[loads.len() - 1].tensors@, f) == n);
        assert(loads.len() * n == rest.len() * n + n) by (nonlinear_arith)
            requires
                loads.len() == rest.len() + 1,
        ;
    } else {
        assert(loads.len() * n == 0) by (nonlinear_arith)
            requires
                loads.len() == 0,
        ;
    }
}

proof fn lemma_fp4_selected(
    experts: Seq<DeepSeekFp4ExpertWeights>,
    selected: Seq<usize>,
    dims: ExpertDims,
    from: int,
    i: int,
)
    requires
        0 <= from <= i < selected.len(),
        moe::fp4_selection_fault(experts, selected, dims, from) is None,
    ensures
        moe::fp4_expert_fault(experts, selected[i], dims) is None,
    decreases i - from,
{
    if from < i {
        lemma_fp4_selected(experts, selected, dims, from + 1, i);
    }
}

proof fn lemma_q4_selected(
    experts: Seq<ExpertWeights>,
    selected: Seq<usize>,
    dims: ExpertDims,
    from: int,
    i: int,
)
    requires
        0 <= from <= i < selected.len(),
        moe::q4_selection_fault(experts, selected, dims, from) is None,
    ensures
        moe::q4_expert_fault(experts, selected[i], dims) is None,
    decreases i - from,
{
    if from < i {
        lemma_q4_selected(experts, selected, dims, from + 1, i);
    }
}

/// The plan of 4-bit experts that can be run has six tensors for each, and the bytes
/// that their dimensions give.
pub proof fn fp4_plans_are_sized(
    loads: Seq<ExpertLoad>,
    experts: Seq<DeepSeekFp4ExpertWeights>,
    selected: Seq<usize>,
    x_len: usize,
    dims: ExpertDims,
)
    requires
        session::is_fp4_plan(loads, experts, selected),
        moe::fp4_run_fault(experts, selected, x_len, dims) is None,
    ensures
        plan_total(loads, each()) == selected.len() * 6,
        plan_total(loads, weights()) == selected.len() * (dims.fp4_gate_up_weight_bytes() * 2
            + dims.fp4_down_weight_bytes()),
        plan_total(loads, scales()) == selected.len() * (dims.fp4_gate_up_scale_bytes() * 2
            + dims.fp4_down_scale_bytes()),
        session::load_sum(loads, Part::Whole) == selected.len() * dims.fp4_expert_bytes(),
{
    let w = dims.fp4_gate_up_weight_bytes() * 2 + dims.fp4_down_weight_bytes();
    let s = dims.fp4_gate_up_scale_bytes() * 2 + dims.fp4_down_scale_bytes();
    assert forall|i: int| 0 <= i < loads.len() implies {
        let ts = (#[trigger] loads[i]).tensors@;
        &&& tensors_total(ts, each()) == 6
        &&& tensors_total(ts, weights()) == w
        &&& tensors_total(ts, scales()) == s
    } by {
        lemma_fp4_selected(experts, selected, dims, 0, i);
        let x = experts[selected[i] as int];
        let ts = loads[i].tensors@;
        assert(ts == session::fp4_tensors(x));
        assert(x.gate_weight.len() == x.gate_weight@.len());
        assert(x.gate_scale.len() == x.gate_scale@.len());
        assert(x.up_weight.len() == x.up_weight@.len());
        assert(x.up_scale.len() == x.up_scale@.len());
        assert(x.down_weight.len() == x.down_weight@.len());
        assert(x.down_scale.len() == x.down_scale@.len());
        lemma_six(ts, each());
        lemma_six(ts, weights());
        lemma_six(ts, scales());
    }
    lemma_uniform(loads, each(), 6);
    lemma_uniform(loads, weights(), w);
    lemma_uniform(loads, scales(), s);
    weights_and_scales(loads);
    assert(selected.len() * w + selected.len() * s == selected.len() * (w + s)) by (nonlinear_arith);
}

/// The plan of `Q4_0` experts that can be run has three tensors for each, and the bytes
/// that their dimensions give, all of them weights.
pub proof fn q4_plans_are_sized(
    loads: Seq<ExpertLoad>,
    experts: Seq<ExpertWeights>,
    selected: Seq<usize>,
    x_len: usize,
    dims: ExpertDims,
)
    requires
        session::is_q4_plan(loads, experts, selected),
        moe::q4_run_fault(experts, selected, x_len, dims) is None,
    ensures
        plan_total(loads, each()) == selected.len() * 3,
        plan_total(loads, weights()) == selected.len() * dims.q4_expert_bytes(),
        plan_total(loads, scales()) == 0,
        session::load_sum(loads, Part::Whole) == selected.len() * dims.q4_expert_bytes(),
{
    let w = dims.q4_expert_bytes();
    assert forall|i: int| 0 <= i < loads.len() implies {
        let ts = (#[trigger] loads[i]).tensors@;
        &&& tensors_total(ts, each()) == 3
        &&& tensors_total(ts, weights()) == w
        &&& tensors_total(ts, scales()) == 0
    } by {
        lemma_q4_selected(experts, selected, dims, 0, i);
        let x = experts[selected[i] as int];
        let ts = loads[i].tensors@;
        assert(ts == session::q4_tensors(x));
        assert(x.w_gate.len() == x.w_gate@.len());
        assert(x.w_up.len() == x.w_up@.len());
        assert(x.w_down.len() == x.w_down@.len());
        assert(ts.take(3) == ts);
        lemma_three(ts, each());
        lemma_three(ts, weights());
        lemma_three(ts, scales());
    }
    lemma_uniform(loads, each(), 3);
    lemma_uniform(loads, weights(), w);
    lemma_uniform(loads, scales(), 0);
    weights_and_scales(loads);
}

/// Plans made apart for one selection of the same experts are the same plan.
pub proof fn selections_give_one_plan(
    x: MoeRun,
    y: MoeRun,
    q4: Seq<ExpertWeights>,
    fp4: Seq<DeepSeekFp4ExpertWeights>,
    selected: Seq<usize>,
)
    requires
        x.layer_id == y.layer_id,
        x.format == y.format,
        (session::is_q4_plan(x.loads@, q4, selected) && session::is_q4_plan(
            y.loads@,
            q4,
            selected,
        )) || (session::is_fp4_plan(x.loads@, fp4, selected) && session::is_fp4_plan(
            y.loads@,
            fp4,
            selected,
        )),
    ensures
        x.same_plan(y),
{
}

/// No tensor occurs twice in the plan of experts that are selected once each.
pub proof fn selections_are_distinct(
    run: MoeRun,
    q4: Seq<ExpertWeights>,
    fp4: Seq<DeepSeekFp4ExpertWeights>,
    selected: Seq<usize>,
)
    requires
        session::is_q4_plan(run.loads@, q4, selected) || session::is_fp4_plan(
            run.loads@,
            fp4,
            selected,
        ),
        selected.no_duplicates(),
    ensures
        distinct_plan(run),
{
    assert forall|i: int, t: int, j: int, u: int|
        #![trigger residency::key_at(run, i, t), residency::key_at(run, j, u)]
        residency::in_plan(run.loads@, i, t) && residency::in_plan(run.loads@, j, u)
            && residency::key_at(run, i, t) == residency::key_at(run, j, u) implies i == j && t
        == u by {
        assert(run.loads@[i].expert == selected[i]);
        assert(run.loads@[j].expert == selected[j]);
        assert(i == j);
    }
}

/// The plans of selections without a common expert are apart.
pub proof fn selections_are_apart(x: MoeRun, y: MoeRun)
    requires
        forall|i: int, j: int|
            0 <= i < x.loads@.len() && 0 <= j < y.loads@.len() ==> (#[trigger] x.loads@[i]).expert
                != (#[trigger] y.loads@[j]).expert,
    ensures
        apart(x, y),
{
    assert forall|key: ExpertCacheKey| #[trigger] plan_has(x, key) implies !plan_has(y, key) by {
        let (i, t) = choose|i: int, t: int|
            residency::in_plan(x.loads@, i, t) && #[trigger] residency::key_at(x, i, t) == key;
        assert(x.loads@[i].expert == key.expert_id);
        if plan_has(y, key) {
            let (j, u) = choose|j: int, u: int|
                residency::in_plan(y.loads@, j, u) && #[trigger] residency::key_at(y, j, u) == key;
            assert(y.loads@[j].expert == key.expert_id);
        }
    }
}

} // verus!
