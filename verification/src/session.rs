//! A run of the selected experts, step by step. The run decides which tensor
//! comes from the device cache and which must be uploaded; whoever drives it
//! performs the uploads and the kernel launches.

use crate::cache;
use crate::cache::{CudaExpertCache, ExpertCacheKey, ExpertTensorKind};
use crate::moe;
use crate::moe::{DeepSeekFp4ExpertWeights, ExpertDims, ExpertWeights, TensorLoad};
use crate::quant::QuantFormat;
use std::sync::Arc;
use vstd::prelude::*;

verus! {

/// How many bytes were uploaded and how many were found on the device, apart
/// for weights and scales.
#[derive(Debug, Clone, Copy, PartialEq, Eq, Structural)]
pub struct ByteTally {
    pub weight_loaded: usize,
    pub weight_reused: usize,
    pub scale_loaded: usize,
    pub scale_reused: usize,
}

impl ByteTally {
    /// All bytes.
    pub open spec fn total(self) -> nat {
        (self.weight_loaded + self.weight_reused + self.scale_loaded + self.scale_reused) as nat
    }

    /// The tally after one more tensor of `kind`.
    pub open spec fn plus(self, kind: ExpertTensorKind, bytes: usize, reused: bool) -> ByteTally {
        if is_scale(kind) {
            if reused {
                ByteTally { scale_reused: (self.scale_reused + bytes) as usize, ..self }
            } else {
                ByteTally { scale_loaded: (self.scale_loaded + bytes) as usize, ..self }
            }
        } else {
            if reused {
                ByteTally { weight_reused: (self.weight_reused + bytes) as usize, ..self }
            } else {
                ByteTally { weight_loaded: (self.weight_loaded + bytes) as usize, ..self }
            }
        }
    }

    /// An empty tally.
    pub fn new() -> (t: ByteTally)
        ensures
            t == (ByteTally {
                weight_loaded: 0,
                weight_reused: 0,
                scale_loaded: 0,
                scale_reused: 0,
            }),
    {
        ByteTally { weight_loaded: 0, weight_reused: 0, scale_loaded: 0, scale_reused: 0 }
    }

    /// Counts one more tensor.
    pub fn count(&mut self, kind: ExpertTensorKind, bytes: usize, reused: bool)
        requires
            old(self).total() + bytes <= usize::MAX,
        ensures
            *final(self) == old(self).plus(kind, bytes, reused),
            final(self).total() == old(self).total() + bytes,
    {
        if scale_kind(kind) {
            if reused {
                self.scale_reused = self.scale_reused + bytes;
            } else {
                self.scale_loaded = self.scale_loaded + bytes;
            }
        } else {
            if reused {
                self.weight_reused = self.weight_reused + bytes;
            } else {
                self.weight_loaded = self.weight_loaded + bytes;
            }
        }
    }
}

/// The tensor holds the scales of a routed expert.
pub open spec fn is_scale(kind: ExpertTensorKind) -> bool {
    kind == ExpertTensorKind::GateScale || kind == ExpertTensorKind::UpScale || kind
        == ExpertTensorKind::DownScale
}

fn scale_kind(kind: ExpertTensorKind) -> (yes: bool)
    ensures
        yes == is_scale(kind),
{
    match kind {
        ExpertTensorKind::GateScale => true,
        ExpertTensorKind::UpScale => true,
        ExpertTensorKind::DownScale => true,
        _ => false,
    }
}

// ---------------------------------------------------------------------------
// One tensor
// ---------------------------------------------------------------------------

/// The cache's counters leave room for `n` more events of each kind.
pub open spec fn counters_room<B>(c: CudaExpertCache<B>, n: nat) -> bool {
    &&& c.hit_count + n <= usize::MAX
    &&& c.miss_count + n <= usize::MAX
    &&& c.cache_insert_attempt_count + n <= usize::MAX
    &&& c.cache_insert_accept_count + n <= usize::MAX
    &&& c.cache_insert_bypass_count + n <= usize::MAX
    &&& c.oversized_tensor_bypass_count + n <= usize::MAX
    &&& c.oversized_expert_bypass_count + n <= usize::MAX
    &&& c.self_eviction_risk_count + n <= usize::MAX
}

/// A cache, where there is one, is well formed and its counters have room.
pub open spec fn usable<B>(c: Option<CudaExpertCache<B>>) -> bool {
    match c {
        Some(x) => x.wf() && counters_room(x, 1),
        None => true,
    }
}

/// The cache after a tensor was asked for.
pub open spec fn asked<B>(
    before: Option<CudaExpertCache<B>>,
    after: Option<CudaExpertCache<B>>,
    key: ExpertCacheKey,
    bypass: bool,
) -> bool {
    match (before, after) {
        (Some(x), Some(y)) => {
            &&& y.wf()
            &&& y.same_limits(x)
            &&& y.resident_bytes == x.resident_bytes
            &&& y.pinned_bytes == x.pinned_bytes
            &&& if bypass {
                &&& y.entries@ == x.entries@
                &&& y.counters() == (cache::CacheCounters {
                    insert_attempt: (x.cache_insert_attempt_count + 1) as usize,
                    insert_bypass: (x.cache_insert_bypass_count + 1) as usize,
                    ..x.counters()
                })
            } else {
                &&& y.entries@ == cache::touched(x.entries@, key)
                &&& if x.holds(key) {
                    y.counters() == (cache::CacheCounters {
                        hit: (x.hit_count + 1) as usize,
                        ..x.counters()
                    })
                } else {
                    y.counters() == (cache::CacheCounters {
                        miss: (x.miss_count + 1) as usize,
                        ..x.counters()
                    })
                }
            }
        },
        (None, None) => true,
        _ => false,
    }
}

/// The cached buffer that serves a request, if one does.
pub open spec fn served<B>(
    c: Option<CudaExpertCache<B>>,
    key: ExpertCacheKey,
    bypass: bool,
) -> Option<Arc<B>> {
    match c {
        Some(x) => if bypass {
            None
        } else {
            match cache::position(x.entries@, key) {
                Some(i) => Some(x.entries@[i].buf),
                None => None,
            }
        },
        None => None,
    }
}

/// Asks for a tensor of `bytes` bytes. A cached buffer is handed out and counted
/// as reused; otherwise the tensor is counted as loaded, and the caller uploads
/// it. A bypassed expert does not consult the cache.
pub fn request_tensor<B>(
    cache: &mut Option<CudaExpertCache<B>>,
    key: ExpertCacheKey,
    bytes: usize,
    bypass: bool,
    tally: &mut ByteTally,
) -> (buf: Option<Arc<B>>)
    requires
        usable(*old(cache)),
        old(tally).total() + bytes <= usize::MAX,
    ensures
        buf == served(*old(cache), key, bypass),
        asked(*old(cache), *final(cache), key, bypass),
        *final(tally) == old(tally).plus(key.tensor_kind, bytes, buf is Some),
        final(tally).total() == old(tally).total() + bytes,
{
    match cache {
        Some(c) => {
            if bypass {
                c.cache_insert_attempt_count = c.cache_insert_attempt_count + 1;
                c.cache_insert_bypass_count = c.cache_insert_bypass_count + 1;
                tally.count(key.tensor_kind, bytes, false);
                None
            } else {
                let found = c.get(&key);
                match found {
                    Some(b) => {
                        tally.count(key.tensor_kind, bytes, true);
                        Some(b)
                    },
                    None => {
                        tally.count(key.tensor_kind, bytes, false);
                        None
                    },
                }
            }
        },
        None => {
            tally.count(key.tensor_kind, bytes, false);
            None
        },
    }
}

/// The cache can take a tensor of `bytes` bytes.
pub open spec fn admissible<B>(
    c: Option<CudaExpertCache<B>>,
    key: ExpertCacheKey,
    bytes: usize,
    bypass: bool,
) -> bool {
    match c {
        Some(x) => bypass || {
            &&& x.wf()
            &&& counters_room(x, 1)
            &&& x.insert_allowed(key, bytes)
            &&& x.resident_bytes + bytes <= usize::MAX
            &&& x.eviction_count + x.entries@.len() <= usize::MAX
        },
        None => true,
    }
}

/// The cache after an uploaded tensor was handed to it.
pub open spec fn admitted<B>(
    before: Option<CudaExpertCache<B>>,
    after: Option<CudaExpertCache<B>>,
    key: ExpertCacheKey,
    handle: Arc<B>,
    bytes: usize,
    bypass: bool,
) -> bool {
    match (before, after) {
        (Some(x), Some(y)) => if bypass {
            y == x
        } else {
            y.wf() && cache::inserted(x, y, key, handle, bytes)
        },
        (None, None) => true,
        _ => false,
    }
}

/// Hands an uploaded tensor to the cache, unless the expert is bypassed.
pub fn admit_tensor<B>(
    cache: &mut Option<CudaExpertCache<B>>,
    key: ExpertCacheKey,
    buf: B,
    bytes: usize,
    bypass: bool,
) -> (handle: Arc<B>)
    requires
        admissible(*old(cache), key, bytes, bypass),
    ensures
        *handle == buf,
        admitted(*old(cache), *final(cache), key, handle, bytes, bypass),
{
    match cache {
        Some(c) => {
            if bypass {
                Arc::new(buf)
            } else {
                c.insert(key, buf, bytes)
            }
        },
        None => Arc::new(buf),
    }
}

// ---------------------------------------------------------------------------
// One expert
// ---------------------------------------------------------------------------

/// An expert of `bytes` bytes is to go past the cache: it is larger than the
/// cache, and the cache is told not to take parts of such experts.
pub open spec fn goes_past<B>(c: Option<CudaExpertCache<B>>, bytes: usize) -> bool {
    match c {
        Some(x) => bytes > x.capacity_bytes && x.bypass_oversized_experts,
        None => false,
    }
}

/// The cache after an expert of `bytes` bytes was begun. Where `counted`, an
/// expert larger than the cache is counted: as bypassed, or as one whose tensors
/// may evict each other.
pub open spec fn begun<B>(
    before: Option<CudaExpertCache<B>>,
    after: Option<CudaExpertCache<B>>,
    bytes: usize,
    counted: bool,
) -> bool {
    match (before, after) {
        (Some(x), Some(y)) => {
            &&& y.wf()
            &&& y.same_limits(x)
            &&& y.resident_bytes == x.resident_bytes
            &&& y.pinned_bytes == x.pinned_bytes
            &&& y.entries@ == x.entries@
            &&& if counted && bytes > x.capacity_bytes {
                if x.bypass_oversized_experts {
                    y.counters() == (cache::CacheCounters {
                        oversized_expert_bypass: (x.oversized_expert_bypass_count + 1) as usize,
                        ..x.counters()
                    })
                } else {
                    y.counters() == (cache::CacheCounters {
                        self_eviction_risk: (x.self_eviction_risk_count + 1) as usize,
                        ..x.counters()
                    })
                }
            } else {
                y.counters() == x.counters()
            }
        },
        (None, None) => true,
        _ => false,
    }
}

/// Begins an expert of `bytes` bytes: whether it goes past the cache.
pub fn begin_expert<B>(cache: &mut Option<CudaExpertCache<B>>, bytes: usize, counted: bool) -> (
    bypass: bool)
    requires
        usable(*old(cache)),
    ensures
        bypass == goes_past(*old(cache), bytes),
        begun(*old(cache), *final(cache), bytes, counted),
{
    match cache {
        Some(c) => {
            if bytes > c.capacity_bytes {
                if c.bypass_oversized_experts {
                    if counted {
                        c.oversized_expert_bypass_count = c.oversized_expert_bypass_count + 1;
                    }
                    true
                } else {
                    if counted {
                        c.self_eviction_risk_count = c.self_eviction_risk_count + 1;
                    }
                    false
                }
            } else {
                false
            }
        },
        None => false,
    }
}

// ---------------------------------------------------------------------------
// The plan of a run
// ---------------------------------------------------------------------------

/// A selected expert and its tensors, in the order in which they are loaded.
pub struct ExpertLoad {
    pub expert: usize,
    pub tensors: Vec<TensorLoad>,
}

/// Which tensors a sum counts.
#[derive(Debug, Clone, Copy, PartialEq, Eq, Structural)]
pub enum Part {
    Whole,
    Gate,
    Up,
    Down,
}

/// The tensor belongs to `part` of its expert.
pub open spec fn in_part(kind: ExpertTensorKind, part: Part) -> bool {
    match part {
        Part::Whole => true,
        Part::Gate => kind == ExpertTensorKind::Gate || kind == ExpertTensorKind::GateWeight
            || kind == ExpertTensorKind::GateScale,
        Part::Up => kind == ExpertTensorKind::Up || kind == ExpertTensorKind::UpWeight || kind
            == ExpertTensorKind::UpScale,
        Part::Down => kind == ExpertTensorKind::Down || kind == ExpertTensorKind::DownWeight || kind
            == ExpertTensorKind::DownScale,
    }
}

/// The bytes of the tensors of `part`.
pub open spec fn tensor_sum(ts: Seq<TensorLoad>, part: Part) -> nat
    decreases ts.len(),
{
    if ts.len() == 0 {
        0
    } else {
        tensor_sum(ts.drop_last(), part) + (if in_part(ts.last().kind, part) {
            ts.last().bytes as nat
        } else {
            0
        })
    }
}

/// The bytes of the tensors of `part` of all experts.
pub open spec fn load_sum(loads: Seq<ExpertLoad>, part: Part) -> nat
    decreases loads.len(),
{
    if loads.len() == 0 {
        0
    } else {
        load_sum(loads.drop_last(), part) + tensor_sum(loads.last().tensors@, part)
    }
}

pub(crate) proof fn lemma_tensor_sum_prefix(ts: Seq<TensorLoad>, k: int, part: Part)
    requires
        0 <= k <= ts.len(),
    ensures
        tensor_sum(ts.take(k), part) <= tensor_sum(ts, part),
        k < ts.len() ==> tensor_sum(ts.take(k + 1), part) == tensor_sum(ts.take(k), part) + (
        if in_part(ts[k].kind, part) {
            ts[k].bytes as nat
        } else {
            0
        }),
    decreases ts.len() - k,
{
    if k < ts.len() {
        lemma_tensor_sum_prefix(ts, k + 1, part);
        assert(ts.take(k + 1).drop_last() == ts.take(k));
    } else {
        assert(ts.take(k) == ts);
    }
}

pub(crate) proof fn lemma_load_sum_same(a: Seq<ExpertLoad>, b: Seq<ExpertLoad>, part: Part)
    requires
        a.len() == b.len(),
        forall|i: int|
            #![trigger a[i]]
            #![trigger b[i]]
            0 <= i < a.len() ==> a[i].tensors@ == b[i].tensors@,
    ensures
        load_sum(a, part) == load_sum(b, part),
    decreases a.len(),
{
    if a.len() > 0 {
        let (c, d) = (a.drop_last(), b.drop_last());
        assert forall|i: int|
            #![trigger c[i]]
            #![trigger d[i]]
            0 <= i < c.len() implies c[i].tensors@ == d[i].tensors@ by {
            assert(c[i] == a[i] && d[i] == b[i]);
        }
        lemma_load_sum_same(c, d, part);
        assert(a[a.len() - 1].tensors@ == b[a.len() - 1].tensors@);
    }
}

pub(crate) proof fn lemma_load_sum_prefix(loads: Seq<ExpertLoad>, k: int, part: Part)
    requires
        0 <= k <= loads.len(),
    ensures
        load_sum(loads.take(k), part) <= load_sum(loads, part),
        k < loads.len() ==> load_sum(loads.take(k + 1), part) == load_sum(loads.take(k), part)
            + tensor_sum(loads[k].tensors@, part),
    decreases loads.len() - k,
{
    if k < loads.len() {
        lemma_load_sum_prefix(loads, k + 1, part);
        assert(loads.take(k + 1).drop_last() == loads.take(k));
    } else {
        assert(loads.take(k) == loads);
    }
}

/// Every tensor belongs to one of the three parts of its expert.
pub open spec fn three_parts(ts: Seq<TensorLoad>) -> bool {
    forall|i: int|
        0 <= i < ts.len() ==> in_part((#[trigger] ts[i]).kind, Part::Gate) || in_part(
            ts[i].kind,
            Part::Up,
        ) || in_part(ts[i].kind, Part::Down)
}

proof fn lemma_tensor_parts(ts: Seq<TensorLoad>)
    requires
        three_parts(ts),
    ensures
        tensor_sum(ts, Part::Whole) == tensor_sum(ts, Part::Gate) + tensor_sum(ts, Part::Up)
            + tensor_sum(ts, Part::Down),
    decreases ts.len(),
{
    if ts.len() > 0 {
        assert(in_part(ts[ts.len() - 1].kind, Part::Gate) || in_part(
            ts[ts.len() - 1].kind,
            Part::Up,
        ) || in_part(ts[ts.len() - 1].kind, Part::Down));
        assert forall|i: int| 0 <= i < ts.drop_last().len() implies in_part(
            (#[trigger] ts.drop_last()[i]).kind,
            Part::Gate,
        ) || in_part(ts.drop_last()[i].kind, Part::Up) || in_part(
            ts.drop_last()[i].kind,
            Part::Down,
        ) by {
            assert(ts.drop_last()[i] == ts[i]);
        }
        lemma_tensor_parts(ts.drop_last());
    }
}

/// The bytes of all tensors are those of its gate, up and down parts.
pub proof fn parts_make_the_whole(loads: Seq<ExpertLoad>)
    requires
        forall|i: int| 0 <= i < loads.len() ==> three_parts((#[trigger] loads[i]).tensors@),
    ensures
        load_sum(loads, Part::Whole) == load_sum(loads, Part::Gate) + load_sum(loads, Part::Up)
            + load_sum(loads, Part::Down),
    decreases loads.len(),
{
    if loads.len() > 0 {
        lemma_tensor_parts(loads[loads.len() - 1].tensors@);
        assert forall|i: int| 0 <= i < loads.drop_last().len() implies three_parts(
            (#[trigger] loads.drop_last()[i]).tensors@,
        ) by {
            assert(loads.drop_last()[i] == loads[i]);
        }
        parts_make_the_whole(loads.drop_last());
    }
}

// ---------------------------------------------------------------------------
// The run
// ---------------------------------------------------------------------------

/// What is to be done next.
pub enum MoeStep<B> {
    /// The expert begins; `bypass` says whether it goes past the cache.
    Begin { expert: usize, bypass: bool },
    /// The tensor is on the device already.
    Reuse { kind: ExpertTensorKind, buf: Arc<B> },
    /// The tensor is to be uploaded and handed to `uploaded`.
    Upload { expert: usize, kind: ExpertTensorKind, bytes: usize },
    /// All tensors of the expert at `position` among the selected ones are on
    /// the device: its kernels are to be launched.
    Launch { position: usize, expert: usize },
    /// All selected experts have run.
    Finished,
}

/// A run of the selected experts of a layer.
pub struct MoeRun {
    pub layer_id: usize,
    pub format: QuantFormat,
    /// Whether experts larger than the cache are counted.
    pub counted: bool,
    pub loads: Vec<ExpertLoad>,
    pub at_expert: usize,
    pub at_tensor: usize,
    pub begun: bool,
    pub bypass: bool,
    pub waiting: bool,
    pub tally: ByteTally,
}

impl MoeRun {
    /// The bytes of the tensors asked for so far.
    pub open spec fn asked_bytes(self) -> nat {
        load_sum(self.loads@.take(self.at_expert as int), Part::Whole) + (if self.at_expert
            < self.loads@.len() {
            tensor_sum(
                self.loads@[self.at_expert as int].tensors@.take(
                    self.at_tensor + (if self.waiting {
                        1int
                    } else {
                        0
                    }),
                ),
                Part::Whole,
            )
        } else {
            0
        })
    }

    /// The run stands at a place of its plan, and every byte asked for so far is
    /// counted, as loaded or as reused.
    pub open spec fn wf(self) -> bool {
        &&& self.at_expert <= self.loads@.len()
        &&& self.at_expert == self.loads@.len() ==> self.at_tensor == 0 && !self.waiting
            && !self.begun
        &&& self.at_expert < self.loads@.len() ==> self.at_tensor
            <= self.loads@[self.at_expert as int].tensors@.len()
        &&& self.waiting ==> self.begun && self.at_tensor
            < self.loads@[self.at_expert as int].tensors@.len()
        &&& !self.begun ==> self.at_tensor == 0
        &&& load_sum(self.loads@, Part::Whole) <= usize::MAX
        &&& self.tally.total() == self.asked_bytes()
    }

    /// All selected experts have run.
    pub open spec fn finished(self) -> bool {
        self.at_expert == self.loads@.len()
    }

    /// The run has the same plan: the same layer and format, and for each place the same
    /// expert with the same tensors.
    pub open spec fn same_plan(self, other: MoeRun) -> bool {
        &&& self.layer_id == other.layer_id
        &&& self.format == other.format
        &&& self.loads@.len() == other.loads@.len()
        &&& forall|i: int|
            #![trigger self.loads@[i]]
            #![trigger other.loads@[i]]
            0 <= i < self.loads@.len() ==> self.loads@[i].expert == other.loads@[i].expert
                && self.loads@[i].tensors@ == other.loads@[i].tensors@
    }

    /// The run goes on with the plan that it had.
    pub open spec fn keeps_plan(self, other: MoeRun) -> bool {
        &&& self.layer_id == other.layer_id
        &&& self.format == other.format
        &&& self.counted == other.counted
        &&& self.loads@ == other.loads@
    }

    /// The expert at which the run stands.
    pub open spec fn load(self) -> ExpertLoad {
        self.loads@[self.at_expert as int]
    }

    /// The tensor at which the run stands.
    pub open spec fn tensor(self) -> TensorLoad {
        self.load().tensors@[self.at_tensor as int]
    }

    /// The key of the tensor at which the run stands.
    pub open spec fn key(self) -> ExpertCacheKey {
        ExpertCacheKey {
            layer_id: self.layer_id,
            expert_id: self.load().expert,
            tensor_kind: self.tensor().kind,
            quant_format: self.format,
        }
    }

    /// A run at its beginning.
    pub open spec fn fresh(self) -> bool {
        &&& self.at_expert == 0
        &&& self.at_tensor == 0
        &&& !self.begun
        &&& !self.bypass
        &&& !self.waiting
        &&& self.tally == (ByteTally {
            weight_loaded: 0,
            weight_reused: 0,
            scale_loaded: 0,
            scale_reused: 0,
        })
    }

    /// Starts a run with the given plan.
    pub fn start(
        layer_id: usize,
        format: QuantFormat,
        counted: bool,
        loads: Vec<ExpertLoad>,
    ) -> (run: MoeRun)
        requires
            load_sum(loads@, Part::Whole) <= usize::MAX,
        ensures
            run.wf(),
            run.fresh(),
            run.layer_id == layer_id,
            run.format == format,
            run.counted == counted,
            run.loads@ == loads@,
    {
        let run = MoeRun {
            layer_id,
            format,
            counted,
            loads,
            at_expert: 0,
            at_tensor: 0,
            begun: false,
            bypass: false,
            waiting: false,
            tally: ByteTally::new(),
        };
        proof {
            assert(run.loads@.take(0) == Seq::<ExpertLoad>::empty());
            if run.loads@.len() > 0 {
                assert(run.loads@[0].tensors@.take(0) == Seq::<TensorLoad>::empty());
            }
        }
        run
    }

    /// Takes the next step. The cache is the same one throughout a run.
    pub fn advance<B>(&mut self, cache: &mut Option<CudaExpertCache<B>>) -> (step: MoeStep<B>)
        requires
            old(self).wf(),
            !old(self).waiting,
            usable(*old(cache)),
        ensures
            final(self).wf(),
            advanced(*old(self), *final(self), *old(cache), *final(cache), step),
    {
        let ghost was = *self;
        if self.at_expert == self.loads.len() {
            return MoeStep::Finished;
        }
        let i: usize = self.at_expert;
        let j: usize = self.at_tensor;
        let expert: usize = self.loads[i].expert;
        proof {
            lemma_load_sum_prefix(self.loads@, i as int, Part::Whole);
            lemma_load_sum_prefix(self.loads@, i + 1, Part::Whole);
            lemma_tensor_sum_prefix(self.loads@[i as int].tensors@, j as int, Part::Whole);
        }
        if !self.begun {
            let bytes: usize = sum_part(self.loads[i].tensors.as_slice(), Part::Whole);
            let bypass = begin_expert(cache, bytes, self.counted);
            self.begun = true;
            self.bypass = bypass;
            return MoeStep::Begin { expert, bypass };
        }
        if j == self.loads[i].tensors.len() {
            proof {
                let ts = self.loads@[i as int].tensors@;
                assert(ts.take(j as int) == ts);
            }
            self.at_expert = i + 1;
            self.at_tensor = 0;
            self.begun = false;
            self.bypass = false;
            proof {
                if self.at_expert < self.loads@.len() {
                    assert(self.loads@[self.at_expert as int].tensors@.take(0) == Seq::<
                        TensorLoad,
                    >::empty());
                }
            }
            return MoeStep::Launch { position: i, expert };
        }
        let load: TensorLoad = self.loads[i].tensors[j];
        let key = ExpertCacheKey {
            layer_id: self.layer_id,
            expert_id: expert,
            tensor_kind: load.kind,
            quant_format: self.format,
        };
        proof {
            lemma_tensor_sum_prefix(self.loads@[i as int].tensors@, j + 1, Part::Whole);
        }
        match request_tensor(cache, key, load.bytes, self.bypass, &mut self.tally) {
            Some(buf) => {
                self.at_tensor = j + 1;
                MoeStep::Reuse { kind: load.kind, buf }
            },
            None => {
                self.waiting = true;
                MoeStep::Upload { expert, kind: load.kind, bytes: load.bytes }
            },
        }
    }

    /// Hands over the tensor that the last step asked to upload.
    pub fn uploaded<B>(&mut self, cache: &mut Option<CudaExpertCache<B>>, buf: B) -> (handle: Arc<
        B,
    >)
        requires
            old(self).wf(),
            old(self).waiting,
            admissible(*old(cache), old(self).key(), old(self).tensor().bytes, old(self).bypass),
        ensures
            *handle == buf,
            final(self).wf(),
            handed_over(*old(self), *final(self), *old(cache), *final(cache), handle),
    {
        let i: usize = self.at_expert;
        let load: TensorLoad = self.loads[i].tensors[self.at_tensor];
        let key = ExpertCacheKey {
            layer_id: self.layer_id,
            expert_id: self.loads[i].expert,
            tensor_kind: load.kind,
            quant_format: self.format,
        };
        let count: usize = self.loads[i].tensors.len();
        assert(self.at_tensor < count);
        self.at_tensor = self.at_tensor + 1;
        self.waiting = false;
        admit_tensor(cache, key, buf, load.bytes, self.bypass)
    }
}

/// The run and the cache after a step.
pub open spec fn advanced<B>(
    was: MoeRun,
    now: MoeRun,
    before: Option<CudaExpertCache<B>>,
    after: Option<CudaExpertCache<B>>,
    step: MoeStep<B>,
) -> bool {
    now.keeps_plan(was) && if was.finished() {
        &&& step == MoeStep::<B>::Finished
        &&& now == was
        &&& after == before
    } else if !was.begun {
        let bytes = tensor_sum(was.load().tensors@, Part::Whole) as usize;
        &&& step == MoeStep::<B>::Begin {
            expert: was.load().expert,
            bypass: goes_past(before, bytes),
        }
        &&& now.begun
        &&& now.bypass == goes_past(before, bytes)
        &&& now.at_expert == was.at_expert
        &&& now.at_tensor == was.at_tensor
        &&& now.waiting == was.waiting
        &&& now.tally == was.tally
        &&& begun(before, after, bytes, was.counted)
    } else if was.at_tensor == was.load().tensors@.len() {
        &&& step == MoeStep::<B>::Launch {
            position: was.at_expert,
            expert: was.load().expert,
        }
        &&& now.at_expert == was.at_expert + 1
        &&& now.at_tensor == 0
        &&& !now.begun
        &&& !now.bypass
        &&& !now.waiting
        &&& now.tally == was.tally
        &&& after == before
    } else {
        let found = served(before, was.key(), was.bypass);
        &&& asked(before, after, was.key(), was.bypass)
        &&& now.at_expert == was.at_expert
        &&& now.begun
        &&& now.bypass == was.bypass
        &&& now.tally == was.tally.plus(
            was.tensor().kind,
            was.tensor().bytes,
            found is Some,
        )
        &&& match found {
            Some(buf) => {
                &&& step == MoeStep::<B>::Reuse { kind: was.tensor().kind, buf }
                &&& now.at_tensor == was.at_tensor + 1
                &&& !now.waiting
            },
            None => {
                &&& step == MoeStep::<B>::Upload {
                    expert: was.load().expert,
                    kind: was.tensor().kind,
                    bytes: was.tensor().bytes,
                }
                &&& now.at_tensor == was.at_tensor
                &&& now.waiting
            },
        }
    }
}

/// The run and the cache after the tensor that was asked for was handed over.
pub open spec fn handed_over<B>(
    was: MoeRun,
    now: MoeRun,
    before: Option<CudaExpertCache<B>>,
    after: Option<CudaExpertCache<B>>,
    handle: Arc<B>,
) -> bool {
    &&& now.keeps_plan(was)
    &&& admitted(before, after, was.key(), handle, was.tensor().bytes, was.bypass)
    &&& now.at_expert == was.at_expert
    &&& now.at_tensor == was.at_tensor + 1
    &&& now.begun
    &&& now.bypass == was.bypass
    &&& !now.waiting
    &&& now.tally == was.tally
}

/// The bytes of the tensors of `part`.
pub fn sum_part(ts: &[TensorLoad], part: Part) -> (n: usize)
    requires
        tensor_sum(ts@, Part::Whole) <= usize::MAX,
    ensures
        n == tensor_sum(ts@, part),
{
    let mut n: usize = 0;
    let mut k: usize = 0;
    assert(ts@.take(0) == Seq::<TensorLoad>::empty());
    while k < ts.len()
        invariant
            k <= ts@.len(),
            n == tensor_sum(ts@.take(k as int), part),
            tensor_sum(ts@, Part::Whole) <= usize::MAX,
        decreases ts@.len() - k,
    {
        proof {
            lemma_tensor_sum_prefix(ts@, k as int, part);
            lemma_tensor_sum_prefix(ts@, k + 1, part);
            lemma_part_at_most(ts@, part);
        }
        if belongs(ts[k].kind, part) {
            n = n + ts[k].bytes;
        }
        k = k + 1;
    }
    assert(ts@.take(k as int) == ts@);
    n
}

proof fn lemma_part_at_most(ts: Seq<TensorLoad>, part: Part)
    ensures
        tensor_sum(ts, part) <= tensor_sum(ts, Part::Whole),
    decreases ts.len(),
{
    if ts.len() > 0 {
        lemma_part_at_most(ts.drop_last(), part);
    }
}

fn belongs(kind: ExpertTensorKind, part: Part) -> (yes: bool)
    ensures
        yes == in_part(kind, part),
{
    match part {
        Part::Whole => true,
        Part::Gate => match kind {
            ExpertTensorKind::Gate => true,
            ExpertTensorKind::GateWeight => true,
            ExpertTensorKind::GateScale => true,
            _ => false,
        },
        Part::Up => match kind {
            ExpertTensorKind::Up => true,
            ExpertTensorKind::UpWeight => true,
            ExpertTensorKind::UpScale => true,
            _ => false,
        },
        Part::Down => match kind {
            ExpertTensorKind::Down => true,
            ExpertTensorKind::DownWeight => true,
            ExpertTensorKind::DownScale => true,
            _ => false,
        },
    }
}

// ---------------------------------------------------------------------------
// Plans
// ---------------------------------------------------------------------------

/// The tensors of an expert in `Q4_0`, in loading order.
pub open spec fn q4_tensors(x: ExpertWeights) -> Seq<TensorLoad> {
    seq![
        TensorLoad { kind: ExpertTensorKind::Gate, bytes: x.w_gate@.len() as usize },
        TensorLoad { kind: ExpertTensorKind::Up, bytes: x.w_up@.len() as usize },
        TensorLoad { kind: ExpertTensorKind::Down, bytes: x.w_down@.len() as usize },
    ]
}

/// The tensors of a 4-bit expert, in loading order.
pub open spec fn fp4_tensors(x: DeepSeekFp4ExpertWeights) -> Seq<TensorLoad> {
    seq![
        TensorLoad { kind: ExpertTensorKind::GateWeight, bytes: x.gate_weight@.len() as usize },
        TensorLoad { kind: ExpertTensorKind::GateScale, bytes: x.gate_scale@.len() as usize },
        TensorLoad { kind: ExpertTensorKind::UpWeight, bytes: x.up_weight@.len() as usize },
        TensorLoad { kind: ExpertTensorKind::UpScale, bytes: x.up_scale@.len() as usize },
        TensorLoad { kind: ExpertTensorKind::DownWeight, bytes: x.down_weight@.len() as usize },
        TensorLoad { kind: ExpertTensorKind::DownScale, bytes: x.down_scale@.len() as usize },
    ]
}

/// `loads` is the plan for the selected experts in `Q4_0`.
pub open spec fn is_q4_plan(
    loads: Seq<ExpertLoad>,
    experts: Seq<ExpertWeights>,
    selected: Seq<usize>,
) -> bool {
    &&& loads.len() == selected.len()
    &&& forall|i: int|
        0 <= i < loads.len() ==> (#[trigger] loads[i]).expert == selected[i] && loads[i].tensors@
            == q4_tensors(experts[selected[i] as int])
}

/// `loads` is the plan for the selected 4-bit experts.
pub open spec fn is_fp4_plan(
    loads: Seq<ExpertLoad>,
    experts: Seq<DeepSeekFp4ExpertWeights>,
    selected: Seq<usize>,
) -> bool {
    &&& loads.len() == selected.len()
    &&& forall|i: int|
        0 <= i < loads.len() ==> (#[trigger] loads[i]).expert == selected[i] && loads[i].tensors@
            == fp4_tensors(experts[selected[i] as int])
}

/// The plan for the selected experts in `Q4_0`.
pub fn plan_q4(experts: &[ExpertWeights], selected: &[usize]) -> (loads: Vec<ExpertLoad>)
    requires
        forall|i: int| 0 <= i < selected@.len() ==> (#[trigger] selected@[i]) < experts@.len(),
    ensures
        is_q4_plan(loads@, experts@, selected@),
        forall|i: int| 0 <= i < loads@.len() ==> three_parts((#[trigger] loads@[i]).tensors@),
{
    let mut loads: Vec<ExpertLoad> = Vec::new();
    let mut i: usize = 0;
    while i < selected.len()
        invariant
            i <= selected@.len(),
            loads@.len() == i,
            forall|k: int|
                0 <= k < selected@.len() ==> (#[trigger] selected@[k]) < experts@.len(),
            forall|k: int|
                0 <= k < loads@.len() ==> (#[trigger] loads@[k]).expert == selected@[k]
                    && loads@[k].tensors@ == q4_tensors(experts@[selected@[k] as int])
                    && three_parts(loads@[k].tensors@),
        decreases selected@.len() - i,
    {
        let x = &experts[selected[i]];
        let mut tensors: Vec<TensorLoad> = Vec::new();
        tensors.push(TensorLoad { kind: ExpertTensorKind::Gate, bytes: x.w_gate.len() });
        tensors.push(TensorLoad { kind: ExpertTensorKind::Up, bytes: x.w_up.len() });
        tensors.push(TensorLoad { kind: ExpertTensorKind::Down, bytes: x.w_down.len() });
        assert(tensors@ == q4_tensors(*x));
        loads.push(ExpertLoad { expert: selected[i], tensors });
        i = i + 1;
    }
    loads
}

/// The plan for the selected 4-bit experts.
pub fn plan_fp4(experts: &[DeepSeekFp4ExpertWeights], selected: &[usize]) -> (loads: Vec<
    ExpertLoad,
>)
    requires
        forall|i: int| 0 <= i < selected@.len() ==> (#[trigger] selected@[i]) < experts@.len(),
    ensures
        is_fp4_plan(loads@, experts@, selected@),
        forall|i: int| 0 <= i < loads@.len() ==> three_parts((#[trigger] loads@[i]).tensors@),
{
    let mut loads: Vec<ExpertLoad> = Vec::new();
    let mut i: usize = 0;
    while i < selected.len()
        invariant
            i <= selected@.len(),
            loads@.len() == i,
            forall|k: int|
                0 <= k < selected@.len() ==> (#[trigger] selected@[k]) < experts@.len(),
            forall|k: int|
                0 <= k < loads@.len() ==> (#[trigger] loads@[k]).expert == selected@[k]
                    && loads@[k].tensors@ == fp4_tensors(experts@[selected@[k] as int])
                    && three_parts(loads@[k].tensors@),
        decreases selected@.len() - i,
    {
        let x = &experts[selected[i]];
        let mut tensors: Vec<TensorLoad> = Vec::new();
        tensors.push(TensorLoad { kind: ExpertTensorKind::GateWeight, bytes: x.gate_weight.len() });
        tensors.push(TensorLoad { kind: ExpertTensorKind::GateScale, bytes: x.gate_scale.len() });
        tensors.push(TensorLoad { kind: ExpertTensorKind::UpWeight, bytes: x.up_weight.len() });
        tensors.push(TensorLoad { kind: ExpertTensorKind::UpScale, bytes: x.up_scale.len() });
        tensors.push(TensorLoad { kind: ExpertTensorKind::DownWeight, bytes: x.down_weight.len() });
        tensors.push(TensorLoad { kind: ExpertTensorKind::DownScale, bytes: x.down_scale.len() });
        assert(tensors@ == fp4_tensors(*x));
        loads.push(ExpertLoad { expert: selected[i], tensors });
        i = i + 1;
    }
    loads
}

// ---------------------------------------------------------------------------
// Telemetry
// ---------------------------------------------------------------------------

/// Bytes of the tensors of each part of the selected experts.
#[derive(Debug, Clone, Copy, PartialEq, Eq, Structural)]
pub struct BytesByTensorKind {
    pub gate: usize,
    pub up: usize,
    pub down: usize,
}

impl Default for BytesByTensorKind {
    fn default() -> (b: BytesByTensorKind)
        ensures
            b == (BytesByTensorKind { gate: 0, up: 0, down: 0 }),
    {
        BytesByTensorKind { gate: 0, up: 0, down: 0 }
    }
}

/// The bytes and events of a run.
#[derive(Debug, Clone, Copy, PartialEq, Eq, Structural)]
pub struct MoeTelemetry {
    pub selected_expert_count: usize,
    pub logical_expert_bytes_requested: usize,
    pub actual_expert_bytes_loaded: usize,
    pub resident_cache_bytes_reused: usize,
    pub weight_bytes_loaded: usize,
    pub weight_bytes_reused: usize,
    pub scale_bytes_loaded: usize,
    pub scale_bytes_reused: usize,
    pub resident_cache_resident_bytes: usize,
    pub resident_cache_capacity_bytes: usize,
    pub resident_cache_hit_count: usize,
    pub resident_cache_miss_count: usize,
    pub resident_cache_eviction_count: usize,
    pub resident_cache_insert_attempt_count: usize,
    pub resident_cache_insert_accept_count: usize,
    pub resident_cache_insert_bypass_count: usize,
    pub resident_cache_oversized_tensor_bypass_count: usize,
    pub resident_cache_oversized_expert_bypass_count: usize,
    pub resident_cache_self_eviction_risk_count: usize,
    pub dequantized_scratch_bytes: usize,
    pub bytes_by_tensor_kind: BytesByTensorKind,
    pub bytes_per_expert: usize,
    pub selected_working_set_bytes: usize,
    pub routed_fp4_bytes_loaded: usize,
    pub routed_fp4_bytes_reused: usize,
    pub shared_fp8_bytes_loaded: usize,
    pub shared_fp8_bytes_reused: usize,
    pub total_logical_bytes: usize,
    pub total_loaded_bytes: usize,
    pub total_reused_bytes: usize,
}

/// How many different experts are among the selected ones.
pub open spec fn distinct_count(selected: Seq<usize>) -> nat
    decreases selected.len(),
{
    if selected.len() == 0 {
        0
    } else if selected.drop_last().contains(selected.last()) {
        distinct_count(selected.drop_last())
    } else {
        distinct_count(selected.drop_last()) + 1
    }
}

/// `distinct_count` is the size of the set of the selected experts.
pub proof fn distinct_count_is_set_size(selected: Seq<usize>)
    ensures
        selected.to_set().finite(),
        distinct_count(selected) == selected.to_set().len(),
        distinct_count(selected) <= selected.len(),
    decreases selected.len(),
{
    if selected.len() == 0 {
        assert(selected.to_set() =~= Set::<usize>::empty());
    } else {
        let front = selected.drop_last();
        distinct_count_is_set_size(front);
        assert(selected.to_set() =~= front.to_set().insert(selected.last())) by {
            assert(selected == front.push(selected.last()));
            assert forall|x: usize| selected.to_set().contains(x) implies front.to_set().insert(
                selected.last(),
            ).contains(x) by {
                let k = choose|k: int| 0 <= k < selected.len() && selected[k] == x;
                if k < front.len() {
                    assert(front[k] == x);
                }
            }
            assert forall|x: usize| front.to_set().insert(selected.last()).contains(
                x,
            ) implies selected.to_set().contains(x) by {
                if x == selected.last() {
                    assert(selected[selected.len() - 1] == x);
                } else {
                    let k = choose|k: int| 0 <= k < front.len() && front[k] == x;
                    assert(selected[k] == x);
                }
            }
        }
        if front.contains(selected.last()) {
            assert(front.to_set().contains(selected.last()));
        }
    }
}

/// The selected experts of a plan.
pub open spec fn selected_experts(loads: Seq<ExpertLoad>) -> Seq<usize> {
    loads.map_values(|l: ExpertLoad| l.expert)
}

/// How many different experts are among the loads of a plan.
pub fn count_distinct(loads: &[ExpertLoad]) -> (n: usize)
    ensures
        n == distinct_count(selected_experts(loads@)),
{
    let ghost all = selected_experts(loads@);
    let mut n: usize = 0;
    let mut i: usize = 0;
    assert(all.take(0) == Seq::<usize>::empty());
    while i < loads.len()
        invariant
            i <= loads@.len(),
            all == selected_experts(loads@),
            n == distinct_count(all.take(i as int)),
            n <= i,
        decreases loads@.len() - i,
    {
        let e: usize = loads[i].expert;
        let mut seen = false;
        let mut j: usize = 0;
        while j < i
            invariant
                j <= i < loads@.len(),
                all == selected_experts(loads@),
                e == all[i as int],
                seen == exists|k: int| 0 <= k < j && #[trigger] all[k] == e,
            decreases i - j,
        {
            assert(all[j as int] == loads@[j as int].expert);
            if loads[j].expert == e {
                seen = true;
            }
            j = j + 1;
        }
        proof {
            let front = all.take(i as int);
            if seen {
                let k = choose|k: int| 0 <= k < i && #[trigger] all[k] == e;
                assert(front[k] == e);
            } else if front.contains(e) {
                let k = choose|k: int| 0 <= k < front.len() && front[k] == e;
                assert(all[k] == e);
            }
        }
        assert(all.take(i + 1).drop_last() == all.take(i as int));
        assert(all.take(i + 1).last() == e);
        if !seen {
            n = n + 1;
        }
        i = i + 1;
    }
    assert(all.take(i as int) == all);
    n
}

/// The bytes of the tensors of `part` of all experts.
pub fn sum_loads(loads: &[ExpertLoad], part: Part) -> (n: usize)
    requires
        load_sum(loads@, Part::Whole) <= usize::MAX,
    ensures
        n == load_sum(loads@, part),
{
    let mut n: usize = 0;
    let mut i: usize = 0;
    assert(loads@.take(0) == Seq::<ExpertLoad>::empty());
    while i < loads.len()
        invariant
            i <= loads@.len(),
            n == load_sum(loads@.take(i as int), part),
            load_sum(loads@, Part::Whole) <= usize::MAX,
        decreases loads@.len() - i,
    {
        proof {
            lemma_load_sum_prefix(loads@, i as int, part);
            lemma_load_sum_prefix(loads@, i + 1, part);
            lemma_load_sum_prefix(loads@, i as int, Part::Whole);
            lemma_load_sum_prefix(loads@, i + 1, Part::Whole);
            lemma_load_part_at_most(loads@, part);
        }
        n = n + sum_part(loads[i].tensors.as_slice(), part);
        i = i + 1;
    }
    assert(loads@.take(i as int) == loads@);
    n
}

proof fn lemma_load_part_at_most(loads: Seq<ExpertLoad>, part: Part)
    ensures
        load_sum(loads, part) <= load_sum(loads, Part::Whole),
    decreases loads.len(),
{
    if loads.len() > 0 {
        lemma_load_part_at_most(loads.drop_last(), part);
        lemma_part_at_most(loads.last().tensors@, part);
    }
}

/// What a cache, where there is one, says of itself.
#[derive(Debug, Clone, Copy, PartialEq, Eq, Structural)]
pub struct CacheSnapshot {
    pub capacity_bytes: usize,
    pub resident_bytes: usize,
    pub counters: cache::CacheCounters,
}

/// What a cache says of itself; all zeros where there is none.
pub open spec fn snapshot<B>(c: Option<CudaExpertCache<B>>) -> CacheSnapshot {
    match c {
        Some(x) => CacheSnapshot {
            capacity_bytes: x.capacity_bytes,
            resident_bytes: x.resident_bytes,
            counters: x.counters(),
        },
        None => CacheSnapshot {
            capacity_bytes: 0,
            resident_bytes: 0,
            counters: cache::no_events(),
        },
    }
}

/// What a cache says of itself; all zeros where there is none.
pub fn take_snapshot<B>(c: &Option<CudaExpertCache<B>>) -> (s: CacheSnapshot)
    ensures
        s == snapshot(*c),
{
    match c {
        Some(x) => CacheSnapshot {
            capacity_bytes: x.capacity_bytes,
            resident_bytes: x.resident_bytes,
            counters: cache::CacheCounters {
                hit: x.hit_count,
                miss: x.miss_count,
                eviction: x.eviction_count,
                insert_attempt: x.cache_insert_attempt_count,
                insert_accept: x.cache_insert_accept_count,
                insert_bypass: x.cache_insert_bypass_count,
                oversized_tensor_bypass: x.oversized_tensor_bypass_count,
                oversized_expert_bypass: x.oversized_expert_bypass_count,
                self_eviction_risk: x.self_eviction_risk_count,
            },
        },
        None => CacheSnapshot {
            capacity_bytes: 0,
            resident_bytes: 0,
            counters: cache::CacheCounters {
                hit: 0,
                miss: 0,
                eviction: 0,
                insert_attempt: 0,
                insert_accept: 0,
                insert_bypass: 0,
                oversized_tensor_bypass: 0,
                oversized_expert_bypass: 0,
                self_eviction_risk: 0,
            },
        },
    }
}

impl MoeRun {
    /// A finished run has counted every byte of its plan, as loaded or as reused.
    pub proof fn finished_run_is_accounted(self)
        requires
            self.wf(),
            self.finished(),
        ensures
            self.tally.total() == load_sum(self.loads@, Part::Whole),
    {
        assert(self.loads@.take(self.at_expert as int) == self.loads@);
    }

    /// The telemetry of a finished run whose experts have `bytes_per_expert` bytes.
    pub fn telemetry<B>(&self, cache: &Option<CudaExpertCache<B>>, bytes_per_expert: usize) -> (t:
        MoeTelemetry)
        requires
            self.wf(),
            self.finished(),
            forall|i: int|
                0 <= i < self.loads@.len() ==> three_parts((#[trigger] self.loads@[i]).tensors@),
            distinct_count(selected_experts(self.loads@)) * bytes_per_expert <= usize::MAX,
        ensures
            t.logical_expert_bytes_requested == t.actual_expert_bytes_loaded
                + t.resident_cache_bytes_reused,
            t == (MoeTelemetry {
                selected_expert_count: self.loads@.len() as usize,
                logical_expert_bytes_requested: load_sum(self.loads@, Part::Whole) as usize,
                actual_expert_bytes_loaded: (self.tally.weight_loaded
                    + self.tally.scale_loaded) as usize,
                resident_cache_bytes_reused: (self.tally.weight_reused
                    + self.tally.scale_reused) as usize,
                weight_bytes_loaded: self.tally.weight_loaded,
                weight_bytes_reused: self.tally.weight_reused,
                scale_bytes_loaded: self.tally.scale_loaded,
                scale_bytes_reused: self.tally.scale_reused,
                resident_cache_resident_bytes: snapshot(*cache).resident_bytes,
                resident_cache_capacity_bytes: snapshot(*cache).capacity_bytes,
                resident_cache_hit_count: snapshot(*cache).counters.hit,
                resident_cache_miss_count: snapshot(*cache).counters.miss,
                resident_cache_eviction_count: snapshot(*cache).counters.eviction,
                resident_cache_insert_attempt_count: snapshot(*cache).counters.insert_attempt,
                resident_cache_insert_accept_count: snapshot(*cache).counters.insert_accept,
                resident_cache_insert_bypass_count: snapshot(*cache).counters.insert_bypass,
                resident_cache_oversized_tensor_bypass_count: snapshot(
                    *cache,
                ).counters.oversized_tensor_bypass,
                resident_cache_oversized_expert_bypass_count: snapshot(
                    *cache,
                ).counters.oversized_expert_bypass,
                resident_cache_self_eviction_risk_count: snapshot(
                    *cache,
                ).counters.self_eviction_risk,
                dequantized_scratch_bytes: 0,
                bytes_by_tensor_kind: BytesByTensorKind {
                    gate: load_sum(self.loads@, Part::Gate) as usize,
                    up: load_sum(self.loads@, Part::Up) as usize,
                    down: load_sum(self.loads@, Part::Down) as usize,
                },
                bytes_per_expert,
                selected_working_set_bytes: (distinct_count(selected_experts(self.loads@))
                    * bytes_per_expert) as usize,
                routed_fp4_bytes_loaded: 0,
                routed_fp4_bytes_reused: 0,
                shared_fp8_bytes_loaded: 0,
                shared_fp8_bytes_reused: 0,
                total_logical_bytes: 0,
                total_loaded_bytes: 0,
                total_reused_bytes: 0,
            }),
    {
        proof {
            self.finished_run_is_accounted();
            parts_make_the_whole(self.loads@);
        }
        let gate: usize = sum_loads(self.loads.as_slice(), Part::Gate);
        let up: usize = sum_loads(self.loads.as_slice(), Part::Up);
        let down: usize = sum_loads(self.loads.as_slice(), Part::Down);
        let s = take_snapshot(cache);
        let distinct: usize = count_distinct(self.loads.as_slice());
        MoeTelemetry {
            selected_expert_count: self.loads.len(),
            logical_expert_bytes_requested: gate + up + down,
            actual_expert_bytes_loaded: self.tally.weight_loaded + self.tally.scale_loaded,
            resident_cache_bytes_reused: self.tally.weight_reused + self.tally.scale_reused,
            weight_bytes_loaded: self.tally.weight_loaded,
            weight_bytes_reused: self.tally.weight_reused,
            scale_bytes_loaded: self.tally.scale_loaded,
            scale_bytes_reused: self.tally.scale_reused,
            resident_cache_resident_bytes: s.resident_bytes,
            resident_cache_capacity_bytes: s.capacity_bytes,
            resident_cache_hit_count: s.counters.hit,
            resident_cache_miss_count: s.counters.miss,
            resident_cache_eviction_count: s.counters.eviction,
            resident_cache_insert_attempt_count: s.counters.insert_attempt,
            resident_cache_insert_accept_count: s.counters.insert_accept,
            resident_cache_insert_bypass_count: s.counters.insert_bypass,
            resident_cache_oversized_tensor_bypass_count: s.counters.oversized_tensor_bypass,
            resident_cache_oversized_expert_bypass_count: s.counters.oversized_expert_bypass,
            resident_cache_self_eviction_risk_count: s.counters.self_eviction_risk,
            dequantized_scratch_bytes: 0,
            bytes_by_tensor_kind: BytesByTensorKind { gate, up, down },
            bytes_per_expert,
            selected_working_set_bytes: distinct * bytes_per_expert,
            routed_fp4_bytes_loaded: 0,
            routed_fp4_bytes_reused: 0,
            shared_fp8_bytes_loaded: 0,
            shared_fp8_bytes_reused: 0,
            total_logical_bytes: 0,
            total_loaded_bytes: 0,
            total_reused_bytes: 0,
        }
    }

    /// The telemetry of a finished run in the model's own arithmetic, with or
    /// without the shared expert. What is asked for is the working set; the
    /// shared expert is uploaded every time.
    pub fn official_telemetry<B>(
        &self,
        cache: &Option<CudaExpertCache<B>>,
        dims: ExpertDims,
        with_shared: bool,
    ) -> (t: MoeTelemetry)
        requires
            self.wf(),
            self.finished(),
            dims.countable(),
            distinct_count(selected_experts(self.loads@)) * dims.official_expert_bytes()
                + dims.shared_expert_bytes() <= usize::MAX,
            load_sum(self.loads@, Part::Whole) + dims.shared_expert_bytes() <= usize::MAX,
        ensures
            t.routed_fp4_bytes_loaded + t.routed_fp4_bytes_reused == load_sum(
                self.loads@,
                Part::Whole,
            ),
            ({
                let set = (distinct_count(selected_experts(self.loads@))
                    * dims.official_expert_bytes()) as usize;
                let shared = if with_shared {
                    dims.shared_expert_bytes() as usize
                } else {
                    0
                };
                let loaded = (self.tally.weight_loaded + self.tally.scale_loaded) as usize;
                let reused = (self.tally.weight_reused + self.tally.scale_reused) as usize;
                t == (MoeTelemetry {
                    selected_expert_count: self.loads@.len() as usize,
                    logical_expert_bytes_requested: set,
                    actual_expert_bytes_loaded: loaded,
                    resident_cache_bytes_reused: reused,
                    weight_bytes_loaded: self.tally.weight_loaded,
                    weight_bytes_reused: self.tally.weight_reused,
                    scale_bytes_loaded: self.tally.scale_loaded,
                    scale_bytes_reused: self.tally.scale_reused,
                    resident_cache_resident_bytes: snapshot(*cache).resident_bytes,
                    resident_cache_capacity_bytes: snapshot(*cache).capacity_bytes,
                    resident_cache_hit_count: snapshot(*cache).counters.hit,
                    resident_cache_miss_count: snapshot(*cache).counters.miss,
                    resident_cache_eviction_count: snapshot(*cache).counters.eviction,
                    resident_cache_insert_attempt_count: 0,
                    resident_cache_insert_accept_count: 0,
                    resident_cache_insert_bypass_count: 0,
                    resident_cache_oversized_tensor_bypass_count: 0,
                    resident_cache_oversized_expert_bypass_count: 0,
                    resident_cache_self_eviction_risk_count: 0,
                    dequantized_scratch_bytes: 0,
                    bytes_by_tensor_kind: BytesByTensorKind { gate: 0, up: 0, down: 0 },
                    bytes_per_expert: dims.official_expert_bytes() as usize,
                    selected_working_set_bytes: set,
                    routed_fp4_bytes_loaded: loaded,
                    routed_fp4_bytes_reused: reused,
                    shared_fp8_bytes_loaded: shared,
                    shared_fp8_bytes_reused: 0,
                    total_logical_bytes: (set + shared) as usize,
                    total_loaded_bytes: (loaded + shared) as usize,
                    total_reused_bytes: reused,
                })
            }),
    {
        proof {
            self.finished_run_is_accounted();
        }
        let per_expert: usize = dims.official_bytes_per_expert();
        let distinct: usize = count_distinct(self.loads.as_slice());
        let set: usize = distinct * per_expert;
        let shared: usize = if with_shared {
            dims.shared_bytes_per_expert()
        } else {
            0
        };
        let loaded: usize = self.tally.weight_loaded + self.tally.scale_loaded;
        let reused: usize = self.tally.weight_reused + self.tally.scale_reused;
        let s = take_snapshot(cache);
        MoeTelemetry {
            selected_expert_count: self.loads.len(),
            logical_expert_bytes_requested: set,
            actual_expert_bytes_loaded: loaded,
            resident_cache_bytes_reused: reused,
            weight_bytes_loaded: self.tally.weight_loaded,
            weight_bytes_reused: self.tally.weight_reused,
            scale_bytes_loaded: self.tally.scale_loaded,
            scale_bytes_reused: self.tally.scale_reused,
            resident_cache_resident_bytes: s.resident_bytes,
            resident_cache_capacity_bytes: s.capacity_bytes,
            resident_cache_hit_count: s.counters.hit,
            resident_cache_miss_count: s.counters.miss,
            resident_cache_eviction_count: s.counters.eviction,
            resident_cache_insert_attempt_count: 0,
            resident_cache_insert_accept_count: 0,
            resident_cache_insert_bypass_count: 0,
            resident_cache_oversized_tensor_bypass_count: 0,
            resident_cache_oversized_expert_bypass_count: 0,
            resident_cache_self_eviction_risk_count: 0,
            dequantized_scratch_bytes: 0,
            bytes_by_tensor_kind: BytesByTensorKind { gate: 0, up: 0, down: 0 },
            bytes_per_expert: per_expert,
            selected_working_set_bytes: set,
            routed_fp4_bytes_loaded: loaded,
            routed_fp4_bytes_reused: reused,
            shared_fp8_bytes_loaded: shared,
            shared_fp8_bytes_reused: 0,
            total_logical_bytes: set + shared,
            total_loaded_bytes: loaded + shared,
            total_reused_bytes: reused,
        }
    }
}

// ---------------------------------------------------------------------------
// Laws of parts
// ---------------------------------------------------------------------------

/// The parts of an expert hold the bytes of their own tensors: in Q4 one tensor
/// each, in FP4 the weight and its scale.
pub proof fn parts_hold_their_tensors(x: ExpertWeights, y: DeepSeekFp4ExpertWeights)
    requires
        x.w_gate@.len() <= usize::MAX,
        x.w_up@.len() <= usize::MAX,
        x.w_down@.len() <= usize::MAX,
        y.gate_weight@.len() <= usize::MAX,
        y.gate_scale@.len() <= usize::MAX,
        y.up_weight@.len() <= usize::MAX,
        y.up_scale@.len() <= usize::MAX,
        y.down_weight@.len() <= usize::MAX,
        y.down_scale@.len() <= usize::MAX,
    ensures
        tensor_sum(q4_tensors(x), Part::Gate) == x.w_gate@.len(),
        tensor_sum(q4_tensors(x), Part::Up) == x.w_up@.len(),
        tensor_sum(q4_tensors(x), Part::Down) == x.w_down@.len(),
        tensor_sum(fp4_tensors(y), Part::Gate) == y.gate_weight@.len() + y.gate_scale@.len(),
        tensor_sum(fp4_tensors(y), Part::Up) == y.up_weight@.len() + y.up_scale@.len(),
        tensor_sum(fp4_tensors(y), Part::Down) == y.down_weight@.len() + y.down_scale@.len(),
{
    let a = q4_tensors(x);
    lemma_three(a, Part::Gate);
    lemma_three(a, Part::Up);
    lemma_three(a, Part::Down);
    let b = fp4_tensors(y);
    lemma_six(b, Part::Gate);
    lemma_six(b, Part::Up);
    lemma_six(b, Part::Down);
}

/// The bytes that a tensor adds to a part.
spec fn part_bytes(t: TensorLoad, part: Part) -> nat {
    if in_part(t.kind, part) {
        t.bytes as nat
    } else {
        0
    }
}

proof fn lemma_three(ts: Seq<TensorLoad>, part: Part)
    requires
        ts.len() == 3,
    ensures
        tensor_sum(ts, part) == part_bytes(ts[0], part) + part_bytes(ts[1], part) + part_bytes(
            ts[2],
            part,
        ),
{
    reveal_with_fuel(tensor_sum, 4);
    assert(ts.drop_last().last() == ts[1]);
    assert(ts.drop_last().drop_last().last() == ts[0]);
}

proof fn lemma_six(ts: Seq<TensorLoad>, part: Part)
    requires
        ts.len() == 6,
    ensures
        tensor_sum(ts, part) == part_bytes(ts[0], part) + part_bytes(ts[1], part) + part_bytes(
            ts[2],
            part,
        ) + part_bytes(ts[3], part) + part_bytes(ts[4], part) + part_bytes(ts[5], part),
{
    let front = ts.drop_last().drop_last().drop_last();
    lemma_three(front, part);
    reveal_with_fuel(tensor_sum, 4);
    assert(front[0] == ts[0] && front[1] == ts[1] && front[2] == ts[2]);
    assert(ts.drop_last().last() == ts[4]);
    assert(ts.drop_last().drop_last().last() == ts[3]);
}

/// A tensor of an expert belongs to the whole and to one of its parts.
pub proof fn tensors_belong_to_one_part(kind: ExpertTensorKind)
    ensures
        in_part(kind, Part::Whole),
        !(in_part(kind, Part::Gate) && in_part(kind, Part::Up)),
        !(in_part(kind, Part::Gate) && in_part(kind, Part::Down)),
        !(in_part(kind, Part::Up) && in_part(kind, Part::Down)),
        is_scale(kind) ==> in_part(kind, Part::Gate) || in_part(kind, Part::Up) || in_part(
            kind,
            Part::Down,
        ),
{
}

/// Bytes that were on the device count as reused, others as loaded, and either as
/// scales or as weights.
pub proof fn bytes_are_counted_once(
    t: ByteTally,
    kind: ExpertTensorKind,
    bytes: usize,
    reused: bool,
)
    requires
        t.total() + bytes <= usize::MAX,
    ensures
        ({
            let n = t.plus(kind, bytes, reused);
            let loaded = |x: ByteTally| x.weight_loaded + x.scale_loaded;
            let again = |x: ByteTally| x.weight_reused + x.scale_reused;
            let scales = |x: ByteTally| x.scale_loaded + x.scale_reused;
            &&& loaded(n) == loaded(t) + if reused {
                0
            } else {
                bytes as int
            }
            &&& again(n) == again(t) + if reused {
                bytes as int
            } else {
                0
            }
            &&& scales(n) == scales(t) + if is_scale(kind) {
                bytes as int
            } else {
                0
            }
            &&& n.total() == t.total() + bytes
        }),
{
}

/// An expert goes past the cache exactly where it is larger than the cache and the
/// cache is told to let such ones pass.
pub proof fn only_oversized_experts_go_past<B>(c: Option<CudaExpertCache<B>>, bytes: usize)
    ensures
        goes_past(c, bytes) ==> c is Some && bytes > (c->0).capacity_bytes
            && (c->0).bypass_oversized_experts,
        c is Some && bytes > (c->0).capacity_bytes && (c->0).bypass_oversized_experts ==> goes_past(
            c,
            bytes,
        ),
{
}

/// A tensor is served from the cache exactly where the cache holds its key and the
/// expert does not go past it, and then it is the one under that key.
pub proof fn resident_tensors_are_served<B>(
    c: Option<CudaExpertCache<B>>,
    key: ExpertCacheKey,
    bypass: bool,
)
    requires
        c matches Some(x) ==> x.wf(),
    ensures
        served(c, key, bypass) is Some <==> !bypass && c is Some && exists|i: int|
            0 <= i < (c->0).entries@.len() && (#[trigger] (c->0).entries@[i]).key == key,
        served(c, key, bypass) matches Some(buf) ==> forall|i: int|
            0 <= i < (c->0).entries@.len() && (#[trigger] (c->0).entries@[i]).key == key
                ==> (c->0).entries@[i].buf == buf,
{
    if let Some(x) = c {
        cache::position_is_exact(x.entries@, key);
    }
}

/// A report on a cache gives its size, what it holds and each of its counts; without
/// a cache all of them are zero.
pub proof fn snapshots_tell_what_is_held<B>(c: Option<CudaExpertCache<B>>)
    ensures
        c matches Some(x) ==> {
            let s = snapshot(c);
            &&& s.capacity_bytes == x.capacity_bytes
            &&& s.resident_bytes == x.resident_bytes
            &&& s.counters.hit == x.hit_count
            &&& s.counters.miss == x.miss_count
            &&& s.counters.eviction == x.eviction_count
            &&& s.counters.insert_attempt == x.cache_insert_attempt_count
            &&& s.counters.insert_accept == x.cache_insert_accept_count
            &&& s.counters.insert_bypass == x.cache_insert_bypass_count
            &&& s.counters.oversized_tensor_bypass == x.oversized_tensor_bypass_count
            &&& s.counters.oversized_expert_bypass == x.oversized_expert_bypass_count
            &&& s.counters.self_eviction_risk == x.self_eviction_risk_count
        },
        c is None ==> {
            let s = snapshot(c);
            &&& s.capacity_bytes == 0 && s.resident_bytes == 0
            &&& s.counters.hit == 0 && s.counters.miss == 0 && s.counters.eviction == 0
            &&& s.counters.insert_attempt == 0 && s.counters.insert_accept == 0
            &&& s.counters.insert_bypass == 0 && s.counters.oversized_tensor_bypass == 0
            &&& s.counters.oversized_expert_bypass == 0 && s.counters.self_eviction_risk == 0
        },
{
}

/// Of a routed expert's tensors those that are no scales are weights, in either
/// storage.
pub proof fn scales_are_no_weights(kind: ExpertTensorKind, part: Part)
    requires
        in_part(kind, part),
        part !is Whole,
    ensures
        !is_scale(kind) <==> (kind is Gate || kind is Up || kind is Down || kind is GateWeight
            || kind is UpWeight || kind is DownWeight),
{
}

/// No tensor and no expert is passed over: a step stays where it is, goes on by one
/// tensor that the cache held, or goes on to the next expert once all tensors of the
/// one before are there; handing a tensor over goes on by that tensor.
pub proof fn nothing_is_passed_over<B>(
    was: MoeRun,
    now: MoeRun,
    before: Option<CudaExpertCache<B>>,
    after: Option<CudaExpertCache<B>>,
    step: MoeStep<B>,
    handle: Arc<B>,
)
    ensures
        advanced(was, now, before, after, step) ==> {
            &&& step is Launch <==> now.at_expert != was.at_expert
            &&& step is Launch ==> now.at_expert == was.at_expert + 1 && now.at_tensor == 0
                && was.at_tensor == was.load().tensors@.len()
            &&& step is Reuse ==> now.at_tensor == was.at_tensor + 1
            &&& step is Upload || step is Begin || step is Finished ==> now.at_tensor
                == was.at_tensor
            &&& step is Upload ==> now.waiting
        },
        handed_over(was, now, before, after, handle) ==> {
            &&& now.at_expert == was.at_expert
            &&& now.at_tensor == was.at_tensor + 1
            &&& !now.waiting
        },
{
}

/// A run begins with the first tensor of the first expert, and with nothing counted.
pub proof fn runs_begin_at_the_beginning(run: MoeRun)
    requires
        run.fresh(),
    ensures
        run.at_expert == 0,
        run.at_tensor == 0,
        !run.waiting,
        run.tally.weight_loaded + run.tally.weight_reused + run.tally.scale_loaded
            + run.tally.scale_reused == 0,
{
}

} // verus!
