//! The phase of each layer.
//!
//! The rules are heuristic: the first layers form tokens, layers with grouped
//! attention steer, the last layers project, and the rest transport.

use crate::aot::types::{PhasePolicy, PhasePolicyLayer, RecommendedPolicy};
use crate::ieee;
use crate::text;
use vstd::arithmetic::power2::*;
use vstd::prelude::*;

verus! {

/// Layers with grouped-query attention: every fourth one up to layer 39.
pub open spec fn is_grouped(layer: u32) -> bool {
    layer % 4 == 3 && layer <= 39
}

/// The phase of a layer. The first rule that fits decides.
pub open spec fn phase_of(layer: u32, num_layers: u32) -> Seq<char> {
    if layer <= 2 {
        "integrity_frontier"@
    } else if num_layers > 2 && layer + 2 >= num_layers {
        "projection"@
    } else if is_grouped(layer) {
        "steering"@
    } else {
        "transport"@
    }
}

/// The policy of a phase.
#[verifier::ext_equal]
pub struct PolicyFacts {
    pub policy_kind: Seq<char>,
    pub moe_top_p: u32,
    pub moe_min_experts: u32,
    pub moe_max_experts: u32,
}

/// What a policy says.
pub open spec fn policy_facts(p: RecommendedPolicy) -> PolicyFacts {
    PolicyFacts {
        policy_kind: p.policy_kind@,
        moe_top_p: p.moe_top_p,
        moe_min_experts: p.moe_min_experts,
        moe_max_experts: p.moe_max_experts,
    }
}

/// The bit pattern of the number one.
pub const TOP_P_ALL: u32 = 0x3f80_0000;

/// The bit pattern of 0.95.
pub const TOP_P_MOST: u32 = 0x3f73_3333;

/// The bit pattern of 0.9.
pub const TOP_P_MANY: u32 = 0x3f66_6666;

/// The policy of a phase. Transport layers may be thinned out most.
pub open spec fn policy_of(phase: Seq<char>) -> PolicyFacts {
    if phase == "integrity_frontier"@ {
        PolicyFacts {
            policy_kind: "exact"@,
            moe_top_p: TOP_P_ALL,
            moe_min_experts: 8,
            moe_max_experts: 8,
        }
    } else if phase == "steering"@ || phase == "projection"@ {
        PolicyFacts {
            policy_kind: "top_p"@,
            moe_top_p: TOP_P_MOST,
            moe_min_experts: 6,
            moe_max_experts: 8,
        }
    } else {
        PolicyFacts {
            policy_kind: "top_p"@,
            moe_top_p: TOP_P_MANY,
            moe_min_experts: 4,
            moe_max_experts: 8,
        }
    }
}

/// The phase of a layer.
pub fn classify_layer(layer: u32, num_layers: u32) -> (phase: String)
    ensures
        phase@ == phase_of(layer, num_layers),
{
    if layer <= 2 {
        "integrity_frontier".to_owned()
    } else if num_layers > 2 && layer >= num_layers - 2 {
        "projection".to_owned()
    } else if layer % 4 == 3 && layer <= 39 {
        "steering".to_owned()
    } else {
        "transport".to_owned()
    }
}

/// The policy of a phase.
pub fn policy_for_phase(phase: &str) -> (p: RecommendedPolicy)
    ensures
        policy_facts(p) == policy_of(phase@),
{
    if text::text_eq(phase, "integrity_frontier") {
        RecommendedPolicy {
            policy_kind: "exact".to_owned(),
            moe_top_p: TOP_P_ALL,
            moe_min_experts: 8,
            moe_max_experts: 8,
        }
    } else if text::text_eq(phase, "steering") || text::text_eq(phase, "projection") {
        RecommendedPolicy {
            policy_kind: "top_p".to_owned(),
            moe_top_p: TOP_P_MOST,
            moe_min_experts: 6,
            moe_max_experts: 8,
        }
    } else {
        RecommendedPolicy {
            policy_kind: "top_p".to_owned(),
            moe_top_p: TOP_P_MANY,
            moe_min_experts: 4,
            moe_max_experts: 8,
        }
    }
}

/// The policy has one entry for each layer, in order, with its phase and the
/// policy of that phase.
pub open spec fn is_policy(layers: Seq<PhasePolicyLayer>, num_layers: u32) -> bool {
    &&& layers.len() == num_layers
    &&& forall|l: int|
        0 <= l < layers.len() ==> {
            &&& (#[trigger] layers[l]).layer == l
            &&& layers[l].phase@ == phase_of(l as u32, num_layers)
            &&& policy_facts(layers[l].recommended_policy) == policy_of(layers[l].phase@)
        }
}

/// The phases of all layers.
pub fn run(num_layers: u32) -> (p: PhasePolicy)
    ensures
        p.schema_version == 1,
        p.source@ == "heuristic_lko_v1"@,
        p.confidence@ == "experimental"@,
        is_policy(p.layers@, num_layers),
{
    let mut layers: Vec<PhasePolicyLayer> = Vec::new();
    let mut l: u32 = 0;
    while l < num_layers
        invariant
            l <= num_layers,
            layers@.len() == l,
            forall|k: int|
                0 <= k < layers@.len() ==> {
                    &&& (#[trigger] layers@[k]).layer == k
                    &&& layers@[k].phase@ == phase_of(k as u32, num_layers)
                    &&& policy_facts(layers@[k].recommended_policy) == policy_of(layers@[k].phase@)
                },
        decreases num_layers - l,
    {
        let phase = classify_layer(l, num_layers);
        let recommended_policy = policy_for_phase(phase.as_str());
        layers.push(PhasePolicyLayer { layer: l, phase, recommended_policy });
        l = l + 1;
    }
    PhasePolicy {
        schema_version: 1,
        source: "heuristic_lko_v1".to_owned(),
        confidence: "experimental".to_owned(),
        layers,
    }
}

/// The phase that a policy gives a layer, at or after `from`.
pub open spec fn phase_from(layers: Seq<PhasePolicyLayer>, layer: u32, from: int) -> Seq<char>
    decreases layers.len() - from,
{
    if from < 0 || from >= layers.len() {
        "transport"@
    } else if layers[from].layer == layer {
        layers[from].phase@
    } else {
        phase_from(layers, layer, from + 1)
    }
}

/// The phase that a policy gives a layer: that of the first entry for it, and
/// transport where there is none.
pub open spec fn phase_in(p: PhasePolicy, layer: u32) -> Seq<char> {
    phase_from(p.layers@, layer, 0)
}

/// The phase that a policy gives a layer.
pub fn phase_for_layer(policy: &PhasePolicy, layer: u32) -> (phase: &str)
    ensures
        phase@ == phase_in(*policy, layer),
{
    let mut i: usize = 0;
    while i < policy.layers.len()
        invariant
            i <= policy.layers@.len(),
            phase_in(*policy, layer) == phase_from(policy.layers@, layer, i as int),
        decreases policy.layers@.len() - i,
    {
        if policy.layers[i].layer == layer {
            return policy.layers[i].phase.as_str();
        }
        i = i + 1;
    }
    "transport"
}

/// A policy says of each of its layers what the rules say, and transport of all
/// others.
pub proof fn policy_is_read_back(p: PhasePolicy, num_layers: u32, layer: u32)
    requires
        is_policy(p.layers@, num_layers),
    ensures
        layer < num_layers ==> phase_in(p, layer) == phase_of(layer, num_layers),
        layer >= num_layers ==> phase_in(p, layer) == "transport"@,
{
    lemma_read_back(p.layers@, num_layers, layer, 0);
}

proof fn lemma_read_back(layers: Seq<PhasePolicyLayer>, num_layers: u32, layer: u32, from: int)
    requires
        is_policy(layers, num_layers),
        0 <= from <= layers.len(),
    ensures
        from <= layer < num_layers ==> phase_from(layers, layer, from) == phase_of(
            layer,
            num_layers,
        ),
        layer >= num_layers ==> phase_from(layers, layer, from) == "transport"@,
    decreases layers.len() - from,
{
    if from < layers.len() {
        assert(layers[from].layer == from);
        lemma_read_back(layers, num_layers, layer, from + 1);
    }
}

/// The first three layers are exact: they use all eight experts.
pub proof fn frontier_is_exact(layer: u32, num_layers: u32)
    requires
        layer <= 2,
    ensures
        phase_of(layer, num_layers) == "integrity_frontier"@,
        policy_of(phase_of(layer, num_layers)).moe_min_experts == 8,
        policy_of(phase_of(layer, num_layers)).policy_kind == "exact"@,
{
}

/// Every policy leaves room: at least four experts, and never fewer at most than
/// at least.
pub proof fn policies_are_consistent(phase: Seq<char>)
    ensures
        4 <= policy_of(phase).moe_min_experts <= policy_of(phase).moe_max_experts,
        policy_of(phase).moe_max_experts == 8,
{
}

/// The first three layers guard what tokens mean, the last two project, every
/// fourth layer between them up to the fortieth steers, and the others transport.
pub proof fn phases_part_the_layers(layer: u32, num_layers: u32)
    requires
        layer < num_layers,
    ensures
        phase_of(layer, num_layers) == "integrity_frontier"@ <==> layer < 3,
        phase_of(layer, num_layers) == "projection"@ <==> 3 <= layer && num_layers - layer <= 2,
        phase_of(layer, num_layers) == "steering"@ <==> 3 <= layer < num_layers - 2 && ([3u32, 7, 11, 15, 19, 23, 27, 31,
            35, 39]@.contains(layer)),
        phase_of(layer, num_layers) == "transport"@ <==> 3 <= layer < num_layers - 2 && (layer >= 40
            || layer % 4 != 3),
{
    lemma_phases_differ();
    let grouped = [3u32, 7, 11, 15, 19, 23, 27, 31, 35, 39]@;
    assert(grouped.len() == 10);
    assert forall|k: int| 0 <= k < 10 implies #[trigger] grouped[k] == 4 * k + 3 by {}
    if layer % 4 == 3 && layer <= 39 {
        assert(grouped[layer as int / 4] == layer);
    }
}

/// A layer is in one phase only.
proof fn lemma_phases_differ()
    ensures
        "integrity_frontier"@ != "steering"@,
        "integrity_frontier"@ != "projection"@,
        "integrity_frontier"@ != "transport"@,
        "steering"@ != "projection"@,
        "steering"@ != "transport"@,
        "projection"@ != "transport"@,
{
    reveal_strlit("integrity_frontier");
    reveal_strlit("steering");
    reveal_strlit("projection");
    reveal_strlit("transport");
    assert("integrity_frontier"@.len() == 18 && "steering"@.len() == 8);
    assert("projection"@.len() == 10 && "transport"@.len() == 9);
}

/// A layer may use the experts that carry all of the routing mass, ninety-five
/// hundredths of it, or nine tenths. Only layers that may leave mass out may use
/// fewer than eight experts.
pub proof fn policies_are_shares(phase: Seq<char>)
    ensures
        phase == "integrity_frontier"@ ==> ieee::nearest32(policy_of(phase).moe_top_p, 1, 1)
            && policy_of(phase).moe_min_experts == 8,
        phase == "steering"@ || phase == "projection"@ ==> ieee::nearest32(
            policy_of(phase).moe_top_p,
            95,
            100,
        ) && policy_of(phase).moe_min_experts == 6,
        phase == "transport"@ ==> ieee::nearest32(policy_of(phase).moe_top_p, 9, 10) && policy_of(
            phase,
        ).moe_min_experts == 4,
        policy_of(phase).policy_kind == "exact"@ <==> phase == "integrity_frontier"@,
        policy_of(phase).policy_kind != "exact"@ ==> policy_of(phase).policy_kind == "top_p"@,
{
    lemma_phases_differ();
    lemma2_to64();
    reveal_strlit("exact");
    reveal_strlit("top_p");
    assert("exact"@[0] == 'e' && "top_p"@[0] == 't');
}

/// A protected layer is never thinned out more than another, and a transport
/// layer never less.
pub proof fn transport_is_thinned_most(phase: Seq<char>)
    ensures
        policy_of("transport"@).moe_min_experts <= policy_of(phase).moe_min_experts <= policy_of(
            "integrity_frontier"@,
        ).moe_min_experts,
        !ieee::less32(policy_of(phase).moe_top_p, policy_of("transport"@).moe_top_p),
        !ieee::less32(policy_of("integrity_frontier"@).moe_top_p, policy_of(phase).moe_top_p),
{
    lemma_phases_differ();
}

} // verus!
