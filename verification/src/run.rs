//! The decisions of a single-layer mixture-of-experts run: what is read, in which
//! arithmetic it is computed, and what is reported.

use crate::assoc;
use crate::cache;
use crate::cache::{CacheCounters, ExpertCacheKey, ExpertTensorKind};
use crate::deepseek;
use crate::deepseek::{
    BlockFamily, ExpertTensorEntry, ExpertTensorSet, Fp4ExpertTensorSet, ParserMetadata,
};
use crate::error;
use crate::error::CudaError;
use crate::gate;
use crate::ieee;
use crate::options::ExecutionFormat;
use crate::quant::QuantFormat;
use crate::session::{BytesByTensorKind, CacheSnapshot, MoeTelemetry};
use crate::text;
use vstd::arithmetic::power2::*;
use vstd::prelude::*;
use vstd::string::*;

verus! {

// ---------------------------------------------------------------------------
// The model
// ---------------------------------------------------------------------------

/// What is wrong with running a layer of the model.
pub open spec fn model_fault(meta: ParserMetadata, layer: usize) -> Option<error::Fault> {
    if deepseek::layer_fault(meta, layer) is Some {
        deepseek::layer_fault(meta, layer)
    } else if deepseek::layout_fault(meta.expert_layout.layout_kind@) is Some {
        deepseek::layout_fault(meta.expert_layout.layout_kind@)
    } else if meta.layout.top_k == 0 {
        Some(error::invalid(error::Source::Run, "validate top_k"@, "top_k is 0"@))
    } else {
        None
    }
}

/// Checks that a layer of the model can run.
pub fn check_model(meta: &ParserMetadata, layer: usize) -> (r: Result<(), CudaError>)
    ensures
        match r {
            Ok(_) => model_fault(*meta, layer) is None,
            Err(e) => model_fault(*meta, layer) == Some(e@),
        },
{
    match deepseek::validate_layer(meta, layer) {
        Ok(_) => {},
        Err(e) => {
            return Err(e);
        },
    }
    match deepseek::require_explicit_experts(meta) {
        Ok(_) => {},
        Err(e) => {
            return Err(e);
        },
    }
    if meta.layout.top_k == 0 {
        return Err(error::raise_invalid(error::Source::Run, "validate top_k", "top_k is 0".to_owned()));
    }
    Ok(())
}

/// The leaf of the tensor read beside a gate weight: the token table
/// on layers that pick by token, else the bias.
pub open spec fn gate_companion(layer: usize) -> Seq<char> {
    if layer < gate::HASH_LAYERS {
        "ffn.gate.tid2eid"@
    } else {
        "ffn.gate.bias"@
    }
}

/// The names of a layer's gate tensors: the weight, and the token table or bias.
pub fn gate_tensor_names(layer: usize, family: BlockFamily) -> (names: (String, String))
    ensures
        names.0@ == deepseek::router_name("ffn.gate.weight"@, layer, family),
        names.1@ == deepseek::router_name(gate_companion(layer), layer, family),
{
    let weight = deepseek::router_name_for_layer("ffn.gate.weight", layer, family);
    let leaf = if gate::is_hash_layer(layer) {
        "ffn.gate.tid2eid"
    } else {
        "ffn.gate.bias"
    };
    (weight, deepseek::router_name_for_layer(leaf, layer, family))
}

/// The names of a shared expert's tensors.
#[derive(Debug, Clone)]
pub struct SharedExpertNames {
    pub gate_weight: String,
    pub gate_scale: String,
    pub up_weight: String,
    pub up_scale: String,
    pub down_weight: String,
    pub down_scale: String,
}

/// The names of the shared expert's tensors: `w1` is gate, `w3` is up and `w2`
/// is down.
pub fn shared_expert_names(layer: usize, family: BlockFamily) -> (n: SharedExpertNames)
    ensures
        n.gate_weight@ == deepseek::router_name("ffn.shared_experts.w1.weight"@, layer, family),
        n.gate_scale@ == deepseek::router_name("ffn.shared_experts.w1.scale"@, layer, family),
        n.up_weight@ == deepseek::router_name("ffn.shared_experts.w3.weight"@, layer, family),
        n.up_scale@ == deepseek::router_name("ffn.shared_experts.w3.scale"@, layer, family),
        n.down_weight@ == deepseek::router_name("ffn.shared_experts.w2.weight"@, layer, family),
        n.down_scale@ == deepseek::router_name("ffn.shared_experts.w2.scale"@, layer, family),
{
    SharedExpertNames {
        gate_weight: deepseek::router_name_for_layer("ffn.shared_experts.w1.weight", layer, family),
        gate_scale: deepseek::router_name_for_layer("ffn.shared_experts.w1.scale", layer, family),
        up_weight: deepseek::router_name_for_layer("ffn.shared_experts.w3.weight", layer, family),
        up_scale: deepseek::router_name_for_layer("ffn.shared_experts.w3.scale", layer, family),
        down_weight: deepseek::router_name_for_layer("ffn.shared_experts.w2.weight", layer, family),
        down_scale: deepseek::router_name_for_layer("ffn.shared_experts.w2.scale", layer, family),
    }
}

/// The cache key of a tensor of a layer's shared expert.
pub fn shared_key(layer: usize, kind: ExpertTensorKind) -> (k: ExpertCacheKey)
    ensures
        k == (ExpertCacheKey {
            layer_id: layer,
            expert_id: 0,
            tensor_kind: kind,
            quant_format: QuantFormat::DeepSeekFp4E2M1,
        }),
{
    ExpertCacheKey {
        layer_id: layer,
        expert_id: 0,
        tensor_kind: kind,
        quant_format: QuantFormat::DeepSeekFp4E2M1,
    }
}

// ---------------------------------------------------------------------------
// Execution format
// ---------------------------------------------------------------------------

/// The tensor is stored as FP4 and belongs to the expert.
pub open spec fn is_fp4_tensor(
    t: ExpertTensorEntry,
    layer: usize,
    expert: usize,
    family: BlockFamily,
) -> bool {
    &&& t.layer_id == Some(layer)
    &&& t.expert_id == Some(Some(expert))
    &&& deepseek::in_family(t.name@, family)
    &&& t.storage_dtype matches Some(d) && d@ == "I8"@
}

/// The first of the selected experts is stored as FP4.
pub open spec fn fp4_stored(
    meta: ParserMetadata,
    layer: usize,
    family: BlockFamily,
    ids: Seq<usize>,
) -> bool {
    ids.len() > 0 && exists|i: int|
        0 <= i < meta.expert_layout.tensors@.len() && is_fp4_tensor(
            #[trigger] meta.expert_layout.tensors@[i],
            layer,
            ids[0],
            family,
        )
}

/// Whether the first of the selected experts is stored as FP4.
pub fn first_expert_uses_fp4(
    meta: &ParserMetadata,
    layer: usize,
    family: BlockFamily,
    ids: &[usize],
) -> (yes: bool)
    ensures
        yes == fp4_stored(*meta, layer, family, ids@),
{
    if ids.len() == 0 {
        return false;
    }
    let tensors = &meta.expert_layout.tensors;
    let mut i: usize = 0;
    while i < tensors.len()
        invariant
            i <= tensors@.len(),
            ids@.len() > 0,
            tensors == meta.expert_layout.tensors,
            forall|j: int|
                0 <= j < i ==> !is_fp4_tensor(#[trigger] tensors@[j], layer, ids@[0], family),
        decreases tensors@.len() - i,
    {
        let t = &tensors[i];
        let of_layer = match t.layer_id {
            Some(l) => l == layer,
            None => false,
        };
        let of_expert = match t.expert_id {
            Some(Some(e)) => e == ids[0],
            _ => false,
        };
        let packed = match &t.storage_dtype {
            Some(d) => text::text_eq(d.as_str(), "I8"),
            None => false,
        };
        if of_layer && of_expert && packed && deepseek::matches_block_family(
            t.name.as_str(),
            family,
        ) {
            assert(is_fp4_tensor(tensors@[i as int], layer, ids@[0], family));
            return true;
        }
        i = i + 1;
    }
    false
}

/// The FP4 arithmetic was asked for, and the weights are not FP4.
pub open spec fn resolve_fault(asked: Option<ExecutionFormat>, fp4: bool) -> Option<error::Fault> {
    if asked == Some(ExecutionFormat::NativeFp4) && !fp4 {
        Some(
            error::unsupported(
                error::Source::Run,
                "execution-format native-fp4"@,
                "native-fp4 was requested but the model weights are not FP4"@,
            ),
        )
    } else {
        None
    }
}

/// The arithmetic of a run: the one asked for, else the one that the weights are
/// stored for.
pub open spec fn resolved(asked: Option<ExecutionFormat>, fp4: bool) -> ExecutionFormat {
    match asked {
        Some(f) => f,
        None => if fp4 {
            ExecutionFormat::NativeFp4
        } else {
            ExecutionFormat::Q4Transcode
        },
    }
}

/// Settles the arithmetic of a run.
pub fn resolve_format(asked: Option<ExecutionFormat>, fp4: bool) -> (r: Result<
    ExecutionFormat,
    CudaError,
>)
    ensures
        match r {
            Ok(f) => resolve_fault(asked, fp4) is None && f == resolved(asked, fp4),
            Err(e) => resolve_fault(asked, fp4) == Some(e@),
        },
        asked matches Some(wanted) ==> (r matches Ok(f) ==> f == wanted),
        r is Err <==> asked == Some(ExecutionFormat::NativeFp4) && !fp4,
{
    match asked {
        Some(f) => {
            if matches!(f, ExecutionFormat::NativeFp4) && !fp4 {
                return Err(
                    error::raise_unsupported(
                        error::Source::Run,
                        "execution-format native-fp4",
                        "native-fp4 was requested but the model weights are not FP4".to_owned(),
                    ),
                );
            }
            Ok(f)
        },
        None => if fp4 {
            Ok(ExecutionFormat::NativeFp4)
        } else {
            Ok(ExecutionFormat::Q4Transcode)
        },
    }
}

/// FP4 arithmetic never runs on weights that are not FP4.
pub proof fn fp4_runs_on_fp4(asked: Option<ExecutionFormat>, fp4: bool)
    requires
        resolve_fault(asked, fp4) is None,
        resolved(asked, fp4) == ExecutionFormat::NativeFp4,
    ensures
        fp4,
{
}

/// A run never uses another arithmetic than the one asked for, whatever the
/// weights are stored as. Only FP4 arithmetic on other weights is refused.
pub proof fn asked_arithmetic_is_used(f: ExecutionFormat, fp4: bool)
    ensures
        resolve_fault(Some(f), fp4) is None ==> resolved(Some(f), fp4) == f,
        resolve_fault(Some(f), fp4) is Some ==> !fp4 && f == ExecutionFormat::NativeFp4,
        resolve_fault(Some(ExecutionFormat::NativeFp4), false) is Some,
        resolve_fault(Some(ExecutionFormat::NativeFp4), true) is None,
{
}

/// Where nothing was asked for the weights decide: nothing is refused, FP4 weights
/// run as they are, and others are transcoded. The official arithmetic never runs
/// unasked.
pub proof fn weights_settle_the_rest(fp4: bool)
    ensures
        resolve_fault(None, fp4) is None,
        resolved(None, fp4) != ExecutionFormat::OfficialRouted,
        resolved(None, fp4) == ExecutionFormat::NativeFp4 <==> fp4,
{
}

/// The reason of a refusal is that the request is not supported.
pub proof fn refusals_are_unsupported(asked: Option<ExecutionFormat>, fp4: bool)
    requires
        resolve_fault(asked, fp4) is Some,
    ensures
        (resolve_fault(asked, fp4)->0).kind == error::CudaErrorKind::Unsupported,
{
}

// ---------------------------------------------------------------------------
// What is read
// ---------------------------------------------------------------------------

/// The tensors that a run reads, and their element types.
#[derive(Debug, Clone)]
pub struct SourcePlan {
    pub dtypes: Vec<(String, String)>,
    pub tensor_names: Vec<String>,
    pub scale_names: Vec<String>,
}

/// Under which key the element type of an expert's part is recorded.
pub open spec fn part_key(expert: usize, part: Seq<char>, suffix: Seq<char>) -> Seq<char> {
    "expert_"@ + text::decimal(expert as nat) + part + suffix
}

/// The suffix of weight keys: FP4 arithmetic keeps the weights, transcoding does
/// not.
pub open spec fn weight_suffix(keeps: bool) -> Seq<char> {
    if keeps {
        "_weight"@
    } else {
        ""@
    }
}

/// The element types with those of an FP4 expert recorded.
pub open spec fn with_fp4(
    t: Map<Seq<char>, Seq<char>>,
    expert: usize,
    keeps: bool,
) -> Map<Seq<char>, Seq<char>> {
    let w = weight_suffix(keeps);
    t.insert(part_key(expert, "_gate"@, w), "I8"@).insert(
        part_key(expert, "_up"@, w),
        "I8"@,
    ).insert(part_key(expert, "_down"@, w), "I8"@).insert(
        part_key(expert, "_gate"@, "_scale"@),
        "F8_E8M0"@,
    ).insert(part_key(expert, "_up"@, "_scale"@), "F8_E8M0"@).insert(
        part_key(expert, "_down"@, "_scale"@),
        "F8_E8M0"@,
    )
}

/// The tensor belongs to the expert.
pub open spec fn of_expert(
    t: ExpertTensorEntry,
    layer: usize,
    expert: usize,
    family: BlockFamily,
) -> bool {
    t.layer_id == Some(layer) && t.expert_id == Some(Some(expert)) && deepseek::in_family(
        t.name@,
        family,
    )
}

/// The element types with those of an expert's tensors recorded by kind. A kind
/// that is known keeps its type.
pub open spec fn with_plain(
    t: Map<Seq<char>, Seq<char>>,
    tensors: Seq<ExpertTensorEntry>,
    layer: usize,
    expert: usize,
    family: BlockFamily,
) -> Map<Seq<char>, Seq<char>>
    decreases tensors.len(),
{
    if tensors.len() == 0 {
        t
    } else {
        let front = with_plain(t, tensors.drop_last(), layer, expert, family);
        let last = tensors.last();
        if of_expert(last, layer, expert, family) && !front.contains_key(last.tensor_kind@) {
            front.insert(last.tensor_kind@, last.dtype@)
        } else {
            front
        }
    }
}

fn key_text(expert: usize, part: &str, suffix: &str) -> (s: String)
    ensures
        s@ == part_key(expert, part@, suffix@),
{
    let mut s = "expert_".to_owned();
    text::push_usize(&mut s, expert);
    s.append(part);
    s.append(suffix);
    s
}

fn push_name(names: &mut Vec<String>, name: &String)
    ensures
        text::views(final(names)@) == text::views(old(names)@).push(name@),
{
    let ghost was = names@;
    names.push(name.clone());
    assert(text::views(names@) == text::views(was).push(name@));
}

impl SourcePlan {
    /// The element types have one entry for each key.
    pub open spec fn wf(self) -> bool {
        assoc::unique_keys(self.dtypes@)
    }

    /// The recorded element types.
    pub open spec fn types(self) -> Map<Seq<char>, Seq<char>> {
        assoc::table_of(self.dtypes@)
    }

    /// A plan that reads nothing.
    pub fn new() -> (p: SourcePlan)
        ensures
            p.wf(),
            p.types() == Map::<Seq<char>, Seq<char>>::empty(),
            p.tensor_names@.len() == 0,
            p.scale_names@.len() == 0,
    {
        SourcePlan { dtypes: Vec::new(), tensor_names: Vec::new(), scale_names: Vec::new() }
    }

    /// Adds the tensors of an FP4 expert. `keeps` says that the weights are used as
    /// they are stored.
    pub fn add_fp4_expert(&mut self, expert: usize, set: &Fp4ExpertTensorSet, keeps: bool)
        requires
            old(self).wf(),
        ensures
            final(self).wf(),
            final(self).types() == with_fp4(old(self).types(), expert, keeps),
            text::views(final(self).tensor_names@) == text::views(old(self).tensor_names@).push(
                set.gate_name@,
            ).push(set.up_name@).push(set.down_name@),
            text::views(final(self).scale_names@) == text::views(old(self).scale_names@).push(
                set.gate_scale_name@,
            ).push(set.up_scale_name@).push(set.down_scale_name@),
    {
        let suffix = if keeps {
            "_weight"
        } else {
            ""
        };
        assoc::put(&mut self.dtypes, key_text(expert, "_gate", suffix), "I8".to_owned());
        assoc::put(&mut self.dtypes, key_text(expert, "_up", suffix), "I8".to_owned());
        assoc::put(&mut self.dtypes, key_text(expert, "_down", suffix), "I8".to_owned());
        assoc::put(&mut self.dtypes, key_text(expert, "_gate", "_scale"), "F8_E8M0".to_owned());
        assoc::put(&mut self.dtypes, key_text(expert, "_up", "_scale"), "F8_E8M0".to_owned());
        assoc::put(&mut self.dtypes, key_text(expert, "_down", "_scale"), "F8_E8M0".to_owned());
        push_name(&mut self.tensor_names, &set.gate_name);
        push_name(&mut self.tensor_names, &set.up_name);
        push_name(&mut self.tensor_names, &set.down_name);
        push_name(&mut self.scale_names, &set.gate_scale_name);
        push_name(&mut self.scale_names, &set.up_scale_name);
        push_name(&mut self.scale_names, &set.down_scale_name);
    }

    /// Adds the tensors of an expert that is stored in a plain element type.
    pub fn add_plain_expert(
        &mut self,
        meta: &ParserMetadata,
        layer: usize,
        family: BlockFamily,
        expert: usize,
        set: &ExpertTensorSet,
    )
        requires
            old(self).wf(),
        ensures
            final(self).wf(),
            final(self).types() == with_plain(
                old(self).types(),
                meta.expert_layout.tensors@,
                layer,
                expert,
                family,
            ),
            text::views(final(self).tensor_names@) == text::views(old(self).tensor_names@).push(
                set.gate_name@,
            ).push(set.up_name@).push(set.down_name@),
            final(self).scale_names == old(self).scale_names,
    {
        let tensors = &meta.expert_layout.tensors;
        let ghost all = tensors@;
        let ghost was = self.types();
        let ghost names = self.tensor_names@;
        let ghost scales = self.scale_names;
        let mut i: usize = 0;
        assert(all.take(0) == Seq::<ExpertTensorEntry>::empty());
        while i < tensors.len()
            invariant
                i <= tensors@.len(),
                all == tensors@,
                self.wf(),
                self.types() == with_plain(was, all.take(i as int), layer, expert, family),
                self.tensor_names@ == names,
                self.scale_names == scales,
            decreases tensors@.len() - i,
        {
            let t = &tensors[i];
            assert(all.take(i + 1).drop_last() == all.take(i as int));
            let of_layer = match t.layer_id {
                Some(l) => l == layer,
                None => false,
            };
            let same_expert = match t.expert_id {
                Some(Some(e)) => e == expert,
                _ => false,
            };
            if of_layer && same_expert && deepseek::matches_block_family(t.name.as_str(), family) {
                if assoc::find_key(self.dtypes.as_slice(), t.tensor_kind.as_str()).is_none() {
                    assoc::put(&mut self.dtypes, t.tensor_kind.clone(), t.dtype.clone());
                }
            }
            i = i + 1;
        }
        assert(all.take(i as int) == all);
        push_name(&mut self.tensor_names, &set.gate_name);
        push_name(&mut self.tensor_names, &set.up_name);
        push_name(&mut self.tensor_names, &set.down_name);
    }
}

/// The shape in which an FP4 tensor is stored: two values share a byte.
pub fn physical_shape(logical: &[usize]) -> (shape: (usize, usize))
    requires
        logical@.len() >= 2,
    ensures
        shape == (logical@[0], (logical@[1] / 2) as usize),
{
    (logical[0], logical[1] / 2)
}

// ---------------------------------------------------------------------------
// Repeated runs
// ---------------------------------------------------------------------------

/// The counts of one measured run.
#[derive(Debug, Clone, Copy, PartialEq, Eq, Structural)]
pub struct WarmRunCounts {
    pub iteration: usize,
    pub cache_hit_delta: usize,
    pub cache_miss_delta: usize,
    pub cache_hit_cumulative: usize,
    pub cache_miss_cumulative: usize,
    pub routed_fp4_bytes_loaded: usize,
    pub routed_fp4_bytes_reused: usize,
    pub shared_fp8_bytes_loaded: usize,
    pub shared_fp8_bytes_reused: usize,
    pub total_logical_bytes: usize,
    pub total_loaded_bytes: usize,
    pub total_reused_bytes: usize,
}

/// How much `now` is above `was`; nothing where it is below.
pub open spec fn above(now: usize, was: usize) -> usize {
    if now >= was {
        (now - was) as usize
    } else {
        0
    }
}

/// The hits and misses up to the run before, none before the first run.
pub open spec fn counted_before(runs: Seq<WarmRunCounts>) -> (usize, usize) {
    if runs.len() == 0 {
        (0, 0)
    } else {
        (runs.last().cache_hit_cumulative, runs.last().cache_miss_cumulative)
    }
}

/// The counts of a measured run in FP4 arithmetic.
pub open spec fn native_counts(runs: Seq<WarmRunCounts>, t: MoeTelemetry) -> WarmRunCounts {
    let (hits, misses) = counted_before(runs);
    WarmRunCounts {
        iteration: runs.len() as usize,
        cache_hit_delta: above(t.resident_cache_hit_count, hits),
        cache_miss_delta: above(t.resident_cache_miss_count, misses),
        cache_hit_cumulative: t.resident_cache_hit_count,
        cache_miss_cumulative: t.resident_cache_miss_count,
        routed_fp4_bytes_loaded: 0,
        routed_fp4_bytes_reused: 0,
        shared_fp8_bytes_loaded: 0,
        shared_fp8_bytes_reused: 0,
        total_logical_bytes: 0,
        total_loaded_bytes: 0,
        total_reused_bytes: 0,
    }
}

/// Records a measured run in FP4 arithmetic.
pub fn push_native_run(runs: &mut Vec<WarmRunCounts>, t: &MoeTelemetry)
    ensures
        final(runs)@ == old(runs)@.push(native_counts(old(runs)@, *t)),
{
    let n: usize = runs.len();
    let (hits, misses) = if n == 0 {
        (0, 0)
    } else {
        (runs[n - 1].cache_hit_cumulative, runs[n - 1].cache_miss_cumulative)
    };
    runs.push(
        WarmRunCounts {
            iteration: n,
            cache_hit_delta: t.resident_cache_hit_count.saturating_sub(hits),
            cache_miss_delta: t.resident_cache_miss_count.saturating_sub(misses),
            cache_hit_cumulative: t.resident_cache_hit_count,
            cache_miss_cumulative: t.resident_cache_miss_count,
            routed_fp4_bytes_loaded: 0,
            routed_fp4_bytes_reused: 0,
            shared_fp8_bytes_loaded: 0,
            shared_fp8_bytes_reused: 0,
            total_logical_bytes: 0,
            total_loaded_bytes: 0,
            total_reused_bytes: 0,
        },
    );
}

/// The counts of a measured run in the official arithmetic.
pub open spec fn official_counts(runs: Seq<WarmRunCounts>, t: MoeTelemetry) -> WarmRunCounts {
    WarmRunCounts {
        iteration: runs.len() as usize,
        cache_hit_delta: 0,
        cache_miss_delta: 0,
        cache_hit_cumulative: t.resident_cache_hit_count,
        cache_miss_cumulative: t.resident_cache_miss_count,
        routed_fp4_bytes_loaded: t.routed_fp4_bytes_loaded,
        routed_fp4_bytes_reused: t.routed_fp4_bytes_reused,
        shared_fp8_bytes_loaded: t.shared_fp8_bytes_loaded,
        shared_fp8_bytes_reused: t.shared_fp8_bytes_reused,
        total_logical_bytes: t.total_logical_bytes,
        total_loaded_bytes: t.total_loaded_bytes,
        total_reused_bytes: t.total_reused_bytes,
    }
}

/// Records a measured run in the official arithmetic.
pub fn push_official_run(runs: &mut Vec<WarmRunCounts>, t: &MoeTelemetry)
    ensures
        final(runs)@ == old(runs)@.push(official_counts(old(runs)@, *t)),
{
    let n: usize = runs.len();
    runs.push(
        WarmRunCounts {
            iteration: n,
            cache_hit_delta: 0,
            cache_miss_delta: 0,
            cache_hit_cumulative: t.resident_cache_hit_count,
            cache_miss_cumulative: t.resident_cache_miss_count,
            routed_fp4_bytes_loaded: t.routed_fp4_bytes_loaded,
            routed_fp4_bytes_reused: t.routed_fp4_bytes_reused,
            shared_fp8_bytes_loaded: t.shared_fp8_bytes_loaded,
            shared_fp8_bytes_reused: t.shared_fp8_bytes_reused,
            total_logical_bytes: t.total_logical_bytes,
            total_loaded_bytes: t.total_loaded_bytes,
            total_reused_bytes: t.total_reused_bytes,
        },
    );
}

/// While the counters only grow, the deltas of the runs add up to the last count.
pub proof fn deltas_add_up(runs: Seq<WarmRunCounts>)
    requires
        forall|i: int|
            0 <= i < runs.len() ==> #[trigger] runs[i].cache_hit_delta == above(
                runs[i].cache_hit_cumulative,
                counted_before(runs.take(i)).0,
            ),
        forall|i: int, j: int|
            0 <= i < j < runs.len() ==> (#[trigger] runs[i]).cache_hit_cumulative <= (
            #[trigger] runs[j]).cache_hit_cumulative,
    ensures
        delta_sum(runs) == counted_before(runs).0,
    decreases runs.len(),
{
    if runs.len() > 0 {
        let front = runs.drop_last();
        assert forall|i: int| 0 <= i < front.len() implies #[trigger] front[i].cache_hit_delta
            == above(front[i].cache_hit_cumulative, counted_before(front.take(i)).0) by {
            assert(front[i] == runs[i]);
            assert(front.take(i) == runs.take(i));
        }
        assert forall|i: int, j: int| 0 <= i < j < front.len() implies (
        #[trigger] front[i]).cache_hit_cumulative <= (#[trigger] front[j]).cache_hit_cumulative by {
            assert(runs[i].cache_hit_cumulative <= runs[j].cache_hit_cumulative);
        }
        deltas_add_up(front);
        let n = runs.len() - 1;
        assert(runs.take(n) == front);
        assert(runs[n].cache_hit_delta == above(
            runs[n].cache_hit_cumulative,
            counted_before(runs.take(n)).0,
        ));
        if front.len() > 0 {
            assert(runs[n - 1].cache_hit_cumulative <= runs[n].cache_hit_cumulative);
            assert(front.last() == runs[n - 1]);
        }
    }
}

/// The sum of the hits that the runs added.
pub open spec fn delta_sum(runs: Seq<WarmRunCounts>) -> nat
    decreases runs.len(),
{
    if runs.len() == 0 {
        0
    } else {
        delta_sum(runs.drop_last()) + runs.last().cache_hit_delta as nat
    }
}

// ---------------------------------------------------------------------------
// The report
// ---------------------------------------------------------------------------

/// Where the numbers of a report come from.
pub open spec fn spec_source_label(format: ExecutionFormat, manual: bool) -> Seq<char> {
    match format {
        ExecutionFormat::NativeFp4 => if manual {
            "real_deepseek_v4_flash_manual_expert_native_fp4_moe"@
        } else {
            "real_deepseek_v4_flash_native_fp4_moe"@
        },
        ExecutionFormat::OfficialRouted => "real_deepseek_v4_flash_official_routed_fp4"@,
        ExecutionFormat::Q4Transcode => if manual {
            "real_deepseek_v4_flash_manual_expert_single_layer_moe"@
        } else {
            "real_deepseek_v4_flash_single_layer_moe"@
        },
    }
}

/// Where the numbers of a report come from.
pub fn source_label(format: ExecutionFormat, manual: bool) -> (s: &'static str)
    ensures
        s@ == spec_source_label(format, manual),
{
    match format {
        ExecutionFormat::NativeFp4 => if manual {
            "real_deepseek_v4_flash_manual_expert_native_fp4_moe"
        } else {
            "real_deepseek_v4_flash_native_fp4_moe"
        },
        ExecutionFormat::OfficialRouted => "real_deepseek_v4_flash_official_routed_fp4",
        ExecutionFormat::Q4Transcode => if manual {
            "real_deepseek_v4_flash_manual_expert_single_layer_moe"
        } else {
            "real_deepseek_v4_flash_single_layer_moe"
        },
    }
}

/// The name of the arithmetic in a report.
pub open spec fn spec_quant_label(format: ExecutionFormat) -> Seq<char> {
    match format {
        ExecutionFormat::NativeFp4 => "DeepSeekFp4E2M1"@,
        ExecutionFormat::OfficialRouted => "DeepSeekFp4E2M1_official"@,
        ExecutionFormat::Q4Transcode => "Q4_0"@,
    }
}

/// The name of the arithmetic in a report.
pub fn quant_label(format: ExecutionFormat) -> (s: &'static str)
    ensures
        s@ == spec_quant_label(format),
{
    match format {
        ExecutionFormat::NativeFp4 => "DeepSeekFp4E2M1",
        ExecutionFormat::OfficialRouted => "DeepSeekFp4E2M1_official",
        ExecutionFormat::Q4Transcode => "Q4_0",
    }
}

/// The counts and facts of a report that depend on the arithmetic.
#[derive(Debug, Clone, Copy, PartialEq, Eq, Structural)]
pub struct ReportFacts {
    pub dequantized_scratch_bytes: usize,
    pub bytes_by_tensor_kind: BytesByTensorKind,
    pub cache_counters: CacheCounters,
    pub routed_fp4_bytes_loaded: Option<usize>,
    pub routed_fp4_bytes_reused: Option<usize>,
    pub shared_fp8_bytes_loaded: Option<usize>,
    pub shared_fp8_bytes_reused: Option<usize>,
    pub total_logical_bytes: Option<usize>,
    pub total_loaded_bytes: Option<usize>,
    pub total_reused_bytes: Option<usize>,
    pub warmup_count: Option<usize>,
    pub repeat_count: Option<usize>,
    pub lists_warm_runs: bool,
    pub all_layers_fixed_route_resident_bytes: Option<usize>,
    pub shared_expert_included: Option<bool>,
    pub shared_expert_weight_bytes: Option<usize>,
    pub shared_total_model_bytes: Option<usize>,
    pub shared_load_bytes_per_token: Option<usize>,
    pub free_capacity_after_shared_pin: Option<usize>,
    pub hyper_connection_included: Option<bool>,
    pub attention_included: Option<bool>,
    pub q4_transcode_invoked: Option<bool>,
    pub official_arithmetic_cpu_reference_available: Option<bool>,
}

/// What a run has to say for its report.
#[derive(Debug, Clone, Copy)]
pub struct RunOutcome {
    pub warmup: usize,
    pub repeat: usize,
    pub include_shared: bool,
    pub shared_weight_bytes: Option<usize>,
    pub num_layers: usize,
    pub has_cache: bool,
    pub cache: CacheSnapshot,
    pub telemetry: MoeTelemetry,
}

impl RunOutcome {
    /// The bytes of all layers can be counted.
    pub open spec fn countable(self) -> bool {
        let shared = match self.shared_weight_bytes {
            Some(w) => w as nat,
            None => 0,
        };
        self.telemetry.selected_working_set_bytes * self.num_layers <= usize::MAX && shared
            * self.num_layers + self.telemetry.selected_working_set_bytes <= usize::MAX
    }

    /// The shared expert's bytes of one layer.
    pub open spec fn shared_bytes(self) -> nat {
        match self.shared_weight_bytes {
            Some(w) => w as nat,
            None => 0,
        }
    }
}

/// The report says how often a run was repeated: only where it was.
pub open spec fn shows_repeats(o: RunOutcome) -> bool {
    o.warmup > 0 || o.repeat > 1
}

/// The facts of a run in FP4 arithmetic.
pub open spec fn native_facts(o: RunOutcome) -> ReportFacts {
    let t = o.telemetry;
    ReportFacts {
        dequantized_scratch_bytes: t.dequantized_scratch_bytes,
        bytes_by_tensor_kind: t.bytes_by_tensor_kind,
        cache_counters: o.cache.counters,
        routed_fp4_bytes_loaded: None,
        routed_fp4_bytes_reused: None,
        shared_fp8_bytes_loaded: None,
        shared_fp8_bytes_reused: None,
        total_logical_bytes: None,
        total_loaded_bytes: None,
        total_reused_bytes: None,
        warmup_count: if shows_repeats(o) {
            Some(o.warmup)
        } else {
            None
        },
        repeat_count: if shows_repeats(o) {
            Some(o.repeat)
        } else {
            None
        },
        lists_warm_runs: shows_repeats(o),
        all_layers_fixed_route_resident_bytes: Some(
            (t.selected_working_set_bytes * o.num_layers) as usize,
        ),
        shared_expert_included: Some(o.include_shared),
        shared_expert_weight_bytes: o.shared_weight_bytes,
        shared_total_model_bytes: None,
        shared_load_bytes_per_token: None,
        free_capacity_after_shared_pin: None,
        hyper_connection_included: Some(false),
        attention_included: Some(false),
        q4_transcode_invoked: Some(false),
        official_arithmetic_cpu_reference_available: Some(o.include_shared),
    }
}

/// The facts of a run in the official arithmetic.
pub open spec fn official_facts(o: RunOutcome) -> ReportFacts {
    let t = o.telemetry;
    ReportFacts {
        dequantized_scratch_bytes: 0,
        bytes_by_tensor_kind: BytesByTensorKind { gate: 0, up: 0, down: 0 },
        cache_counters: cache::no_events(),
        routed_fp4_bytes_loaded: Some(t.routed_fp4_bytes_loaded),
        routed_fp4_bytes_reused: Some(t.routed_fp4_bytes_reused),
        shared_fp8_bytes_loaded: Some(t.shared_fp8_bytes_loaded),
        shared_fp8_bytes_reused: Some(t.shared_fp8_bytes_reused),
        total_logical_bytes: Some(t.total_logical_bytes),
        total_loaded_bytes: Some(t.total_loaded_bytes),
        total_reused_bytes: Some(t.total_reused_bytes),
        warmup_count: Some(o.warmup),
        repeat_count: Some(o.repeat),
        lists_warm_runs: true,
        all_layers_fixed_route_resident_bytes: Some(
            (t.selected_working_set_bytes * o.num_layers) as usize,
        ),
        shared_expert_included: Some(o.include_shared),
        shared_expert_weight_bytes: o.shared_weight_bytes,
        shared_total_model_bytes: match o.shared_weight_bytes {
            Some(w) => Some((w * o.num_layers) as usize),
            None => None,
        },
        shared_load_bytes_per_token: Some(t.shared_fp8_bytes_loaded),
        free_capacity_after_shared_pin: if o.has_cache {
            Some(
                above(
                    o.cache.capacity_bytes,
                    (o.shared_bytes() * o.num_layers + t.selected_working_set_bytes) as usize,
                ),
            )
        } else {
            None
        },
        hyper_connection_included: Some(false),
        attention_included: Some(false),
        q4_transcode_invoked: Some(false),
        official_arithmetic_cpu_reference_available: Some(true),
    }
}

/// The facts of a run with transcoded weights.
pub open spec fn transcode_facts(o: RunOutcome) -> ReportFacts {
    let t = o.telemetry;
    ReportFacts {
        dequantized_scratch_bytes: t.dequantized_scratch_bytes,
        bytes_by_tensor_kind: t.bytes_by_tensor_kind,
        cache_counters: o.cache.counters,
        routed_fp4_bytes_loaded: None,
        routed_fp4_bytes_reused: None,
        shared_fp8_bytes_loaded: None,
        shared_fp8_bytes_reused: None,
        total_logical_bytes: None,
        total_loaded_bytes: None,
        total_reused_bytes: None,
        warmup_count: None,
        repeat_count: None,
        lists_warm_runs: false,
        all_layers_fixed_route_resident_bytes: None,
        shared_expert_included: None,
        shared_expert_weight_bytes: None,
        shared_total_model_bytes: None,
        shared_load_bytes_per_token: None,
        free_capacity_after_shared_pin: None,
        hyper_connection_included: None,
        attention_included: None,
        q4_transcode_invoked: None,
        official_arithmetic_cpu_reference_available: None,
    }
}

/// The facts of a run.
pub open spec fn facts_of(format: ExecutionFormat, o: RunOutcome) -> ReportFacts {
    match format {
        ExecutionFormat::NativeFp4 => native_facts(o),
        ExecutionFormat::OfficialRouted => official_facts(o),
        ExecutionFormat::Q4Transcode => transcode_facts(o),
    }
}

/// The counts and facts that a run reports.
pub fn report_facts(format: ExecutionFormat, o: &RunOutcome) -> (f: ReportFacts)
    requires
        format != ExecutionFormat::Q4Transcode ==> o.countable(),
    ensures
        f == facts_of(format, *o),
{
    let t = o.telemetry;
    let repeats = o.warmup > 0 || o.repeat > 1;
    match format {
        ExecutionFormat::NativeFp4 => ReportFacts {
            dequantized_scratch_bytes: t.dequantized_scratch_bytes,
            bytes_by_tensor_kind: t.bytes_by_tensor_kind,
            cache_counters: o.cache.counters,
            routed_fp4_bytes_loaded: None,
            routed_fp4_bytes_reused: None,
            shared_fp8_bytes_loaded: None,
            shared_fp8_bytes_reused: None,
            total_logical_bytes: None,
            total_loaded_bytes: None,
            total_reused_bytes: None,
            warmup_count: if repeats {
                Some(o.warmup)
            } else {
                None
            },
            repeat_count: if repeats {
                Some(o.repeat)
            } else {
                None
            },
            lists_warm_runs: repeats,
            all_layers_fixed_route_resident_bytes: Some(
                t.selected_working_set_bytes * o.num_layers,
            ),
            shared_expert_included: Some(o.include_shared),
            shared_expert_weight_bytes: o.shared_weight_bytes,
            shared_total_model_bytes: None,
            shared_load_bytes_per_token: None,
            free_capacity_after_shared_pin: None,
            hyper_connection_included: Some(false),
            attention_included: Some(false),
            q4_transcode_invoked: Some(false),
            official_arithmetic_cpu_reference_available: Some(o.include_shared),
        },
        ExecutionFormat::OfficialRouted => {
            let shared: usize = match o.shared_weight_bytes {
                Some(w) => w,
                None => 0,
            };
            assert(0 <= shared * o.num_layers) by (nonlinear_arith)
                requires
                    0 <= shared,
                    0 <= o.num_layers,
            ;
            let shared_all: usize = shared * o.num_layers;
            let free = if o.has_cache {
                Some(
                    o.cache.capacity_bytes.saturating_sub(
                        shared_all + t.selected_working_set_bytes,
                    ),
                )
            } else {
                None
            };
            ReportFacts {
                dequantized_scratch_bytes: 0,
                bytes_by_tensor_kind: BytesByTensorKind { gate: 0, up: 0, down: 0 },
                cache_counters: CacheCounters {
                    hit: 0,
                    miss: 0,
                    eviction: 0,
                    insert_attempt: 0,
                    insert_accept: 0,
                    insert_bypass: 0,
                    oversized_tensor_bypass: 0,
                    oversized_expert_bypass: 0,
                    self_eviction_risk: 0,
                },
                routed_fp4_bytes_loaded: Some(t.routed_fp4_bytes_loaded),
                routed_fp4_bytes_reused: Some(t.routed_fp4_bytes_reused),
                shared_fp8_bytes_loaded: Some(t.shared_fp8_bytes_loaded),
                shared_fp8_bytes_reused: Some(t.shared_fp8_bytes_reused),
                total_logical_bytes: Some(t.total_logical_bytes),
                total_loaded_bytes: Some(t.total_loaded_bytes),
                total_reused_bytes: Some(t.total_reused_bytes),
                warmup_count: Some(o.warmup),
                repeat_count: Some(o.repeat),
                lists_warm_runs: true,
                all_layers_fixed_route_resident_bytes: Some(
                    t.selected_working_set_bytes * o.num_layers,
                ),
                shared_expert_included: Some(o.include_shared),
                shared_expert_weight_bytes: o.shared_weight_bytes,
                shared_total_model_bytes: match o.shared_weight_bytes {
                    Some(w) => Some(w * o.num_layers),
                    None => None,
                },
                shared_load_bytes_per_token: Some(t.shared_fp8_bytes_loaded),
                free_capacity_after_shared_pin: free,
                hyper_connection_included: Some(false),
                attention_included: Some(false),
                q4_transcode_invoked: Some(false),
                official_arithmetic_cpu_reference_available: Some(true),
            }
        },
        ExecutionFormat::Q4Transcode => ReportFacts {
            dequantized_scratch_bytes: t.dequantized_scratch_bytes,
            bytes_by_tensor_kind: t.bytes_by_tensor_kind,
            cache_counters: o.cache.counters,
            routed_fp4_bytes_loaded: None,
            routed_fp4_bytes_reused: None,
            shared_fp8_bytes_loaded: None,
            shared_fp8_bytes_reused: None,
            total_logical_bytes: None,
            total_loaded_bytes: None,
            total_reused_bytes: None,
            warmup_count: None,
            repeat_count: None,
            lists_warm_runs: false,
            all_layers_fixed_route_resident_bytes: None,
            shared_expert_included: None,
            shared_expert_weight_bytes: None,
            shared_total_model_bytes: None,
            shared_load_bytes_per_token: None,
            free_capacity_after_shared_pin: None,
            hyper_connection_included: None,
            attention_included: None,
            q4_transcode_invoked: None,
            official_arithmetic_cpu_reference_available: None,
        },
    }
}

// ---------------------------------------------------------------------------
// Finite output
// ---------------------------------------------------------------------------

/// The pattern stands for an infinity.
pub open spec fn is_infinite32(b: u32) -> bool {
    ieee::exp32(b) == 255 && ieee::frac32(b) == 0
}

/// How many patterns stand for no number, and how many for an infinity.
pub open spec fn odd_counts(v: Seq<u32>) -> (nat, nat)
    decreases v.len(),
{
    if v.len() == 0 {
        (0, 0)
    } else {
        let (nan, inf) = odd_counts(v.drop_last());
        if ieee::is_nan32(v.last()) {
            (nan + 1, inf)
        } else if is_infinite32(v.last()) {
            (nan, inf + 1)
        } else {
            (nan, inf)
        }
    }
}

/// Counts the elements that stand for no number, and the infinities.
pub fn count_nan_inf(v: &[u32]) -> (c: (u32, u32))
    requires
        v@.len() <= u32::MAX,
    ensures
        odd_counts(v@) == (c.0 as nat, c.1 as nat),
{
    let mut nan: u32 = 0;
    let mut inf: u32 = 0;
    let mut i: usize = 0;
    assert(v@.take(0) == Seq::<u32>::empty());
    while i < v.len()
        invariant
            i <= v@.len() <= u32::MAX,
            nan + inf <= i,
            odd_counts(v@.take(i as int)) == (nan as nat, inf as nat),
        decreases v@.len() - i,
    {
        assert(v@.take(i + 1).drop_last() == v@.take(i as int));
        let b: u32 = v[i];
        let top: u32 = b / 0x80_0000 % 256;
        let low: u32 = b % 0x80_0000;
        if top == 255 && low != 0 {
            nan = nan + 1;
        } else if top == 255 {
            inf = inf + 1;
        }
        i = i + 1;
    }
    assert(v@.take(i as int) == v@);
    (nan, inf)
}

/// How many elements of the three outputs are odd.
#[derive(Debug, Clone, Copy, PartialEq, Eq, Structural)]
pub struct OutputCounts {
    pub routed_nan: u32,
    pub routed_inf: u32,
    pub shared_nan: u32,
    pub shared_inf: u32,
    pub full_nan: u32,
    pub full_inf: u32,
}

impl OutputCounts {
    /// All elements are finite numbers.
    pub open spec fn spec_all_finite(self) -> bool {
        self.routed_nan == 0 && self.routed_inf == 0 && self.shared_nan == 0 && self.shared_inf == 0
            && self.full_nan == 0 && self.full_inf == 0
    }

    /// Whether all elements are finite numbers.
    pub fn all_finite(&self) -> (yes: bool)
        ensures
            yes == self.spec_all_finite(),
    {
        self.routed_nan == 0 && self.routed_inf == 0 && self.shared_nan == 0 && self.shared_inf == 0
            && self.full_nan == 0 && self.full_inf == 0
    }

    /// The status of the comparison, with the counts where something is odd.
    pub open spec fn spec_status(self) -> Seq<char> {
        if self.spec_all_finite() {
            "valid_finite"@
        } else {
            "non_finite: routed_nan="@ + text::decimal(self.routed_nan as nat) + " routed_inf="@
                + text::decimal(self.routed_inf as nat) + " shared_nan="@ + text::decimal(
                self.shared_nan as nat,
            ) + " shared_inf="@ + text::decimal(self.shared_inf as nat) + " full_nan="@
                + text::decimal(self.full_nan as nat) + " full_inf="@ + text::decimal(
                self.full_inf as nat,
            )
        }
    }

    /// The status of the comparison, with the counts where something is odd.
    pub fn status(&self) -> (s: String)
        ensures
            s@ == self.spec_status(),
    {
        if self.all_finite() {
            return "valid_finite".to_owned();
        }
        let mut s = "non_finite: routed_nan=".to_owned();
        text::push_decimal(&mut s, self.routed_nan as u64);
        s.append(" routed_inf=");
        text::push_decimal(&mut s, self.routed_inf as u64);
        s.append(" shared_nan=");
        text::push_decimal(&mut s, self.shared_nan as u64);
        s.append(" shared_inf=");
        text::push_decimal(&mut s, self.shared_inf as u64);
        s.append(" full_nan=");
        text::push_decimal(&mut s, self.full_nan as u64);
        s.append(" full_inf=");
        text::push_decimal(&mut s, self.full_inf as u64);
        s
    }
}

/// The bit pattern of the similarity above which official outputs agree: 0.9999.
pub const OFFICIAL_PARITY: u32 = 0x3f7f_f972;

/// The bit pattern of the similarity above which decoded weights agree: 0.99.
pub const DECODED_PARITY: u32 = 0x3f7d_70a4;

/// Whether the outputs in the official arithmetic agree: all are finite, and they
/// are similar.
pub fn official_parity(counts: &OutputCounts, similarity: u32) -> (yes: bool)
    ensures
        yes == (counts.spec_all_finite() && ieee::less32(OFFICIAL_PARITY, similarity)),
{
    counts.all_finite() && ieee::is_less32(OFFICIAL_PARITY, similarity)
}

/// Whether the output agrees with that of the decoded weights.
pub fn decoded_parity(similarity: u32) -> (yes: bool)
    ensures
        yes == ieee::less32(DECODED_PARITY, similarity),
{
    ieee::is_less32(DECODED_PARITY, similarity)
}

// ---------------------------------------------------------------------------
// Laws
// ---------------------------------------------------------------------------

/// A layer runs exactly when the model has it, stores its experts one by one and
/// routes to at least one.
pub proof fn runnable_models_are_accepted(meta: ParserMetadata, layer: usize)
    ensures
        model_fault(meta, layer) is None <==> layer < meta.layout.num_layers
            && meta.expert_layout.layout_kind@ == "explicit_experts"@ && meta.layout.top_k > 0,
{
}

/// The token table is read on the first three layers, and the bias on all others.
pub proof fn early_layers_read_the_table(layer: usize)
    ensures
        gate_companion(layer) == "ffn.gate.tid2eid"@ <==> layer < 3,
        gate_companion(layer) == "ffn.gate.bias"@ <==> layer >= 3,
{
    reveal_strlit("ffn.gate.tid2eid");
    reveal_strlit("ffn.gate.bias");
    assert("ffn.gate.tid2eid"@.len() == 16 && "ffn.gate.bias"@.len() == 13);
}

/// The keys of an expert's parts differ.
proof fn lemma_keys_differ(expert: usize, keeps: bool)
    ensures
        ({
            let w = weight_suffix(keeps);
            let z = "_scale"@;
            let (a, b, c) = (
                part_key(expert, "_gate"@, w),
                part_key(expert, "_up"@, w),
                part_key(expert, "_down"@, w),
            );
            let (x, y, v) = (
                part_key(expert, "_gate"@, z),
                part_key(expert, "_up"@, z),
                part_key(expert, "_down"@, z),
            );
            &&& a != b && a != c && b != c
            &&& x != y && x != v && y != v
            &&& a != x && a != y && a != v
            &&& b != x && b != y && b != v
            &&& c != x && c != y && c != v
        }),
{
    reveal_strlit("_gate");
    reveal_strlit("_up");
    reveal_strlit("_down");
    reveal_strlit("_scale");
    reveal_strlit("_weight");
    reveal_strlit("");
    let head = "expert_"@ + text::decimal(expert as nat);
    let n = head.len() as int;
    let w = weight_suffix(keeps);
    let z = "_scale"@;
    let (a, b, c) = (
        part_key(expert, "_gate"@, w),
        part_key(expert, "_up"@, w),
        part_key(expert, "_down"@, w),
    );
    let (x, y, v) = (
        part_key(expert, "_gate"@, z),
        part_key(expert, "_up"@, z),
        part_key(expert, "_down"@, z),
    );
    assert(a[n + 1] == 'g' && b[n + 1] == 'u' && c[n + 1] == 'd');
    assert(x[n + 1] == 'g' && y[n + 1] == 'u' && v[n + 1] == 'd');
    assert(a.len() == n + 5 + w.len() && x.len() == n + 11);
    assert(b.len() == n + 3 + w.len() && y.len() == n + 9);
    assert(c.len() == n + 5 + w.len() && v.len() == n + 11);
    assert(w.len() == 7 || w.len() == 0);
}

/// Of an FP4 expert the three weights are recorded as packed bytes and the three
/// scales as powers of two, each under a key of its own. What was recorded under
/// other keys stays.
pub proof fn fp4_types_are_recorded(
    t: Map<Seq<char>, Seq<char>>,
    expert: usize,
    keeps: bool,
    part: Seq<char>,
    other: Seq<char>,
)
    requires
        part == "_gate"@ || part == "_up"@ || part == "_down"@,
    ensures
        ({
            let now = with_fp4(t, expert, keeps);
            let w = weight_suffix(keeps);
            &&& now.contains_key(part_key(expert, part, w))
            &&& now[part_key(expert, part, w)] == "I8"@
            &&& now.contains_key(part_key(expert, part, "_scale"@))
            &&& now[part_key(expert, part, "_scale"@)] == "F8_E8M0"@
            &&& (forall|p: Seq<char>|
                p == "_gate"@ || p == "_up"@ || p == "_down"@ ==> other != #[trigger] part_key(
                    expert,
                    p,
                    w,
                ) && other != part_key(expert, p, "_scale"@)) ==> {
                &&& now.contains_key(other) == t.contains_key(other)
                &&& t.contains_key(other) ==> now[other] == t[other]
            }
        }),
{
    lemma_keys_differ(expert, keeps);
}

/// Of a plain expert a kind that was known keeps its type, and a new one has the
/// type of the expert's first tensor of that kind.
pub proof fn plain_types_are_recorded(
    t: Map<Seq<char>, Seq<char>>,
    tensors: Seq<ExpertTensorEntry>,
    layer: usize,
    expert: usize,
    family: BlockFamily,
    kind: Seq<char>,
)
    ensures
        ({
            let now = with_plain(t, tensors, layer, expert, family);
            &&& t.contains_key(kind) ==> now.contains_key(kind) && now[kind] == t[kind]
            &&& !t.contains_key(kind) && now.contains_key(kind) ==> exists|i: int|
                0 <= i < tensors.len() && of_expert(#[trigger] tensors[i], layer, expert, family)
                    && tensors[i].tensor_kind@ == kind && now[kind] == tensors[i].dtype@ && forall|
                    j: int,
                |
                    0 <= j < i ==> !(of_expert(#[trigger] tensors[j], layer, expert, family)
                        && tensors[j].tensor_kind@ == kind)
            &&& !now.contains_key(kind) ==> forall|j: int|
                0 <= j < tensors.len() ==> !(of_expert(
                    #[trigger] tensors[j],
                    layer,
                    expert,
                    family,
                ) && tensors[j].tensor_kind@ == kind)
        }),
    decreases tensors.len(),
{
    if tensors.len() > 0 {
        let front = tensors.drop_last();
        let n = tensors.len() - 1;
        plain_types_are_recorded(t, front, layer, expert, family, kind);
        let was = with_plain(t, front, layer, expert, family);
        let now = with_plain(t, tensors, layer, expert, family);
        assert(tensors[n] == tensors.last());
        assert forall|j: int| 0 <= j < n implies front[j] == tensors[j] by {}
        if !t.contains_key(kind) && was.contains_key(kind) {
            let i = choose|i: int|
                0 <= i < front.len() && of_expert(#[trigger] front[i], layer, expert, family)
                    && front[i].tensor_kind@ == kind && was[kind] == front[i].dtype@ && forall|
                    j: int,
                |
                    0 <= j < i ==> !(of_expert(#[trigger] front[j], layer, expert, family)
                        && front[j].tensor_kind@ == kind);
            assert(of_expert(tensors[i], layer, expert, family));
            assert forall|j: int| 0 <= j < i implies !(of_expert(
                #[trigger] tensors[j],
                layer,
                expert,
                family,
            ) && tensors[j].tensor_kind@ == kind) by {
                assert(front[j] == tensors[j]);
            }
        } else if !was.contains_key(kind) {
            assert forall|j: int| 0 <= j < n implies !(of_expert(
                #[trigger] tensors[j],
                layer,
                expert,
                family,
            ) && tensors[j].tensor_kind@ == kind) by {
                assert(front[j] == tensors[j]);
            }
        }
    }
}

/// While the counters only grow, the hits and misses that a record counts are what
/// the run added. In FP4 arithmetic no bytes are told; in the official one no
/// deltas are, and what was loaded and reused is.
pub proof fn records_tell_what_was_added(runs: Seq<WarmRunCounts>, t: MoeTelemetry)
    requires
        runs.len() < usize::MAX,
        runs.len() > 0 ==> runs.last().cache_hit_cumulative <= t.resident_cache_hit_count
            && runs.last().cache_miss_cumulative <= t.resident_cache_miss_count,
    ensures
        ({
            let native = native_counts(runs, t);
            let official = official_counts(runs, t);
            let (hits, misses) = if runs.len() == 0 {
                (0, 0)
            } else {
                (runs.last().cache_hit_cumulative as int, runs.last().cache_miss_cumulative as int)
            };
            &&& native.iteration == runs.len() && official.iteration == runs.len()
            &&& hits + native.cache_hit_delta == t.resident_cache_hit_count
            &&& misses + native.cache_miss_delta == t.resident_cache_miss_count
            &&& native.cache_hit_cumulative == t.resident_cache_hit_count
            &&& native.cache_miss_cumulative == t.resident_cache_miss_count
            &&& native.total_loaded_bytes == 0 && native.total_reused_bytes == 0
            &&& official.cache_hit_delta == 0 && official.cache_miss_delta == 0
            &&& official.cache_hit_cumulative == t.resident_cache_hit_count
            &&& official.cache_miss_cumulative == t.resident_cache_miss_count
            &&& official.routed_fp4_bytes_loaded + official.routed_fp4_bytes_reused
                == t.routed_fp4_bytes_loaded + t.routed_fp4_bytes_reused
            &&& official.total_loaded_bytes == t.total_loaded_bytes
            &&& official.total_reused_bytes == t.total_reused_bytes
            &&& official.total_logical_bytes == t.total_logical_bytes
        }),
{
}

/// Reports are told apart by their source, and arithmetics by their name.
pub proof fn reports_are_told_apart(f: ExecutionFormat, g: ExecutionFormat, m: bool, n: bool)
    ensures
        spec_quant_label(f) == spec_quant_label(g) ==> f == g,
        spec_source_label(f, m) == spec_source_label(g, n) ==> f == g && (m == n || f
            == ExecutionFormat::OfficialRouted),
{
    reveal_strlit("DeepSeekFp4E2M1");
    reveal_strlit("DeepSeekFp4E2M1_official");
    reveal_strlit("Q4_0");
    reveal_strlit("real_deepseek_v4_flash_manual_expert_native_fp4_moe");
    reveal_strlit("real_deepseek_v4_flash_native_fp4_moe");
    reveal_strlit("real_deepseek_v4_flash_official_routed_fp4");
    reveal_strlit("real_deepseek_v4_flash_manual_expert_single_layer_moe");
    reveal_strlit("real_deepseek_v4_flash_single_layer_moe");
    assert(spec_quant_label(ExecutionFormat::NativeFp4).len() == 15);
    assert(spec_quant_label(ExecutionFormat::OfficialRouted).len() == 24);
    assert(spec_quant_label(ExecutionFormat::Q4Transcode).len() == 4);
    assert(spec_source_label(ExecutionFormat::NativeFp4, true).len() == 51);
    assert(spec_source_label(ExecutionFormat::NativeFp4, false).len() == 37);
    assert(spec_source_label(ExecutionFormat::OfficialRouted, true).len() == 42);
    assert(spec_source_label(ExecutionFormat::Q4Transcode, true).len() == 53);
    assert(spec_source_label(ExecutionFormat::Q4Transcode, false).len() == 39);
}

/// What a report tells of memory: the selected experts of all layers, the shared
/// experts of all layers, and what the cache has left beside them, nothing where
/// they do not fit.
pub proof fn reports_count_all_layers(o: RunOutcome)
    requires
        o.countable(),
    ensures
        ({
            let official = facts_of(ExecutionFormat::OfficialRouted, o);
            let native = facts_of(ExecutionFormat::NativeFp4, o);
            let routed = o.telemetry.selected_working_set_bytes * o.num_layers;
            let shared = o.shared_bytes() * o.num_layers;
            let used = shared + o.telemetry.selected_working_set_bytes;
            &&& official.all_layers_fixed_route_resident_bytes matches Some(n) && n == routed
            &&& native.all_layers_fixed_route_resident_bytes matches Some(n) && n == routed
            &&& official.shared_total_model_bytes matches Some(n) ==> n == shared
            &&& official.shared_total_model_bytes is Some <==> o.shared_weight_bytes is Some
            &&& official.free_capacity_after_shared_pin is Some <==> o.has_cache
            &&& official.free_capacity_after_shared_pin matches Some(n) ==> (used
                <= o.cache.capacity_bytes ==> n + used == o.cache.capacity_bytes) && (used
                > o.cache.capacity_bytes ==> n == 0)
        }),
{
    let (w, l) = (o.shared_bytes() as int, o.num_layers as int);
    assert(0 <= w * l) by (nonlinear_arith)
        requires
            0 <= w,
            0 <= l,
    ;
    let (r, k) = (o.telemetry.selected_working_set_bytes as int, l);
    assert(0 <= r * k) by (nonlinear_arith)
        requires
            0 <= r,
            0 <= k,
    ;
}

/// Which counts a report shows: repeats wherever a run was repeated, and in the
/// official arithmetic always; bytes in the official arithmetic alone; nothing of
/// either where weights were transcoded. Only the official arithmetic has no cache
/// events of its own.
pub proof fn reports_show_what_applies(format: ExecutionFormat, o: RunOutcome)
    ensures
        ({
            let f = facts_of(format, o);
            let repeated = o.warmup > 0 || o.repeat > 1;
            &&& f.lists_warm_runs <==> format == ExecutionFormat::OfficialRouted || (format
                == ExecutionFormat::NativeFp4 && repeated)
            &&& f.warmup_count == if f.lists_warm_runs {
                Some(o.warmup)
            } else {
                None
            }
            &&& f.repeat_count == if f.lists_warm_runs {
                Some(o.repeat)
            } else {
                None
            }
            &&& f.total_loaded_bytes is Some <==> format == ExecutionFormat::OfficialRouted
            &&& f.total_loaded_bytes matches Some(n) ==> n == o.telemetry.total_loaded_bytes
            &&& f.total_reused_bytes matches Some(n) ==> n == o.telemetry.total_reused_bytes
            &&& f.total_logical_bytes matches Some(n) ==> n == o.telemetry.total_logical_bytes
            &&& f.routed_fp4_bytes_loaded matches Some(n) ==> n
                == o.telemetry.routed_fp4_bytes_loaded
            &&& f.routed_fp4_bytes_reused matches Some(n) ==> n
                == o.telemetry.routed_fp4_bytes_reused
            &&& f.shared_fp8_bytes_loaded matches Some(n) ==> n
                == o.telemetry.shared_fp8_bytes_loaded
            &&& f.shared_fp8_bytes_reused matches Some(n) ==> n
                == o.telemetry.shared_fp8_bytes_reused
            &&& f.shared_expert_included is Some <==> format != ExecutionFormat::Q4Transcode
            &&& f.shared_expert_included matches Some(yes) ==> yes == o.include_shared
            &&& f.q4_transcode_invoked matches Some(yes) ==> !yes
            &&& f.hyper_connection_included matches Some(yes) ==> !yes
            &&& f.attention_included matches Some(yes) ==> !yes
            &&& format != ExecutionFormat::OfficialRouted ==> f.cache_counters == o.cache.counters
                && f.bytes_by_tensor_kind == o.telemetry.bytes_by_tensor_kind
        }),
{
}

/// The odd elements are those that stand for no number and those that are
/// infinite, and no element is both.
pub proof fn odd_elements_are_counted(v: Seq<u32>)
    ensures
        odd_counts(v).0 == v.filter(|b: u32| ieee::is_nan32(b)).len(),
        odd_counts(v).1 == v.filter(
            |b: u32| ieee::exp32(b) == 255 && ieee::frac32(b) == 0,
        ).len(),
        odd_counts(v).0 + odd_counts(v).1 == v.filter(|b: u32| ieee::exp32(b) == 255).len(),
    decreases v.len(),
{
    reveal(Seq::filter);
    if v.len() > 0 {
        odd_elements_are_counted(v.drop_last());
    }
}

/// All is finite exactly where nothing odd was counted, and only then the status is
/// the plain one.
pub proof fn finite_outputs_have_no_odd_elements(c: OutputCounts)
    ensures
        c.spec_all_finite() <==> c.routed_nan + c.routed_inf + c.shared_nan + c.shared_inf
            + c.full_nan + c.full_inf == 0,
        c.spec_status() == "valid_finite"@ <==> c.spec_all_finite(),
{
    reveal_strlit("valid_finite");
    reveal_strlit("non_finite: routed_nan=");
    if !c.spec_all_finite() {
        assert(c.spec_status()[0] == 'n');
    }
    assert("valid_finite"@[0] == 'v');
}

/// Official outputs agree above a similarity of 0.9999, and those of decoded
/// weights above 0.99.
pub proof fn parities_are_shares()
    ensures
        ieee::nearest32(OFFICIAL_PARITY, 9999, 10000),
        ieee::nearest32(DECODED_PARITY, 99, 100),
{
    lemma2_to64();
}

/// One tensor of eight-bit integers that belongs to the first selected expert is
/// enough for the weights to count as FP4; tensors of other experts, layers, families
/// or types are not.
pub proof fn fp4_is_told_by_the_first_expert(
    meta: ParserMetadata,
    layer: usize,
    family: BlockFamily,
    ids: Seq<usize>,
    i: int,
)
    requires
        0 <= i < meta.expert_layout.tensors@.len(),
    ensures
        ids.len() == 0 ==> !fp4_stored(meta, layer, family, ids),
        ({
            let t = meta.expert_layout.tensors@[i];
            ids.len() > 0 && t.layer_id == Some(layer) && t.expert_id == Some(Some(ids[0])) && (
            t.storage_dtype matches Some(d) && d@ == "I8"@) && deepseek::in_family(t.name@, family)
                ==> fp4_stored(meta, layer, family, ids)
        }),
        (forall|k: int|
            0 <= k < meta.expert_layout.tensors@.len() ==> {
                let t = #[trigger] meta.expert_layout.tensors@[k];
                ||| t.layer_id != Some(layer)
                ||| t.expert_id != Some(Some(ids[0]))
                ||| !deepseek::in_family(t.name@, family)
                ||| t.storage_dtype is None
                ||| t.storage_dtype->0@ != "I8"@
            }) ==> !fp4_stored(meta, layer, family, ids),
{
    let t = meta.expert_layout.tensors@[i];
    if ids.len() > 0 && t.layer_id == Some(layer) && t.expert_id == Some(Some(ids[0])) && (
    t.storage_dtype matches Some(d) && d@ == "I8"@) && deepseek::in_family(t.name@, family) {
        assert(is_fp4_tensor(t, layer, ids[0], family));
    }
}

/// Weights that are kept go by a longer key than weights that are transcoded.
pub proof fn kept_weights_are_marked(keeps: bool)
    ensures
        keeps <==> weight_suffix(keeps) == "_weight"@,
        !keeps <==> weight_suffix(keeps).len() == 0,
{
    reveal_strlit("_weight");
    reveal_strlit("");
}

/// A comparison with odd elements tells how many there are of each kind in each
/// output.
pub proof fn odd_elements_are_reported(c: OutputCounts)
    requires
        !c.spec_all_finite(),
    ensures
        text::contains_text(
            c.spec_status(),
            "routed_nan="@ + text::decimal(c.routed_nan as nat) + " routed_inf="@ + text::decimal(
                c.routed_inf as nat,
            ),
        ),
        text::contains_text(
            c.spec_status(),
            " shared_nan="@ + text::decimal(c.shared_nan as nat) + " shared_inf="@ + text::decimal(
                c.shared_inf as nat,
            ),
        ),
        text::contains_text(
            c.spec_status(),
            " full_nan="@ + text::decimal(c.full_nan as nat) + " full_inf="@ + text::decimal(
                c.full_inf as nat,
            ),
        ),
{
    let none = Seq::<char>::empty();
    reveal_strlit("non_finite: routed_nan=");
    reveal_strlit("routed_nan=");
    let first = "non_finite: routed_nan="@;
    assert(first.subrange(12, 23) == "routed_nan="@);
    let head = first.subrange(0, 12);
    let a = "routed_nan="@ + text::decimal(c.routed_nan as nat) + " routed_inf="@ + text::decimal(
        c.routed_inf as nat,
    );
    let b = " shared_nan="@ + text::decimal(c.shared_nan as nat) + " shared_inf="@ + text::decimal(
        c.shared_inf as nat,
    );
    let d = " full_nan="@ + text::decimal(c.full_nan as nat) + " full_inf="@ + text::decimal(
        c.full_inf as nat,
    );
    let s = c.spec_status();
    assert(first == head + "routed_nan="@);
    assert(s == head + a + (b + d));
    text::middles_are_contained(head, a, b + d);
    assert(s == head + a + b + d);
    text::middles_are_contained(head + a, b, d);
    assert(s == head + a + b + d + none);
    text::middles_are_contained(head + a + b, d, none);
}

} // verus!
