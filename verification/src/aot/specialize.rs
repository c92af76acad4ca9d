//! What a specialization decides besides its passes: sizes, names and the
//! contents of the pack.

use crate::aot::target::TargetHardware;
use crate::aot::types::{
    ExpertImportance, ExpertImportanceEntry, ExpertLayout, ExpertTier, Manifest, ModelConfig,
    QualityBudget, RuntimeProfile, SpecializeArgs,
};
use crate::aot::phase_pass;
use crate::flags;
use crate::ieee;
use crate::text;
use vstd::arithmetic::power2::*;
use vstd::prelude::*;
use vstd::string::*;

verus! {

/// The budget that a name stands for, or what to tell the user.
pub fn parse_quality_budget(name: &str) -> (r: Result<QualityBudget, String>)
    ensures
        match r {
            Ok(b) => QualityBudget::named(text::ascii_lower(name@)) == Some(b),
            Err(m) => {
                &&& QualityBudget::named(text::ascii_lower(name@)) is None
                &&& m@ == "invalid quality-budget '"@ + name@
                    + "': expected conservative, balanced, or aggressive"@
            },
        },
{
    match QualityBudget::from_str_loose(name) {
        Some(b) => Ok(b),
        None => {
            let mut m = "invalid quality-budget '".to_owned();
            m.append(name);
            m.append("': expected conservative, balanced, or aggressive");
            Err(m)
        },
    }
}

/// The bytes of the expert cache: those asked for, else those that suit the
/// target.
pub fn cache_capacity(args: &SpecializeArgs, target: &TargetHardware) -> (n: u64)
    ensures
        n == match args.memory_budget {
            Some(b) => b,
            None => target@.recommended_cache_bytes,
        },
{
    match args.memory_budget {
        Some(b) => b,
        None => target.recommended_cache_bytes,
    }
}

/// The number of layers to plan for, forty where the configuration gives none.
pub fn planned_layers(config: &ModelConfig) -> (n: u32)
    ensures
        n == match config.spec_num_hidden_layers() {
            Some(l) => l,
            None => 40,
        },
{
    match config.effective_num_hidden_layers() {
        Some(l) => l,
        None => 40,
    }
}

/// How many experts there can be: those of the layout's count, else those that it
/// lists.
pub open spec fn spec_possible_experts(layout: ExpertLayout) -> nat {
    if layout.logical_routed_expert_count > 0 {
        layout.logical_routed_expert_count as nat
    } else {
        layout.experts@.len()
    }
}

/// How many experts there can be.
pub fn possible_experts(layout: &ExpertLayout) -> (n: u64)
    ensures
        n == spec_possible_experts(*layout),
{
    if layout.logical_routed_expert_count > 0 {
        layout.logical_routed_expert_count
    } else {
        layout.experts.len() as u64
    }
}

/// How many experts are of a tier.
pub open spec fn tier_count(es: Seq<ExpertImportanceEntry>, tier: ExpertTier) -> nat
    decreases es.len(),
{
    if es.len() == 0 {
        0
    } else {
        tier_count(es.drop_last(), tier) + if es.last().tier == tier {
            1nat
        } else {
            0
        }
    }
}

/// How many experts are of a tier.
pub fn count_tier(importance: &ExpertImportance, tier: ExpertTier) -> (n: usize)
    ensures
        n == tier_count(importance.experts@, tier),
{
    let es = &importance.experts;
    let mut n: usize = 0;
    let mut i: usize = 0;
    assert(es@.take(0) == Seq::<ExpertImportanceEntry>::empty());
    while i < es.len()
        invariant
            i <= es@.len(),
            n <= i,
            n == tier_count(es@.take(i as int), tier),
        decreases es@.len() - i,
    {
        assert(es@.take(i + 1).drop_last() == es@.take(i as int));
        if es[i].tier == tier {
            n = n + 1;
        }
        i = i + 1;
    }
    assert(es@.take(i as int) == es@);
    n
}

/// Every expert is of one tier.
pub proof fn tiers_add_up(es: Seq<ExpertImportanceEntry>)
    ensures
        tier_count(es, ExpertTier::Hot) + tier_count(es, ExpertTier::Warm) + tier_count(
            es,
            ExpertTier::Cold,
        ) == es.len(),
    decreases es.len(),
{
    if es.len() > 0 {
        tiers_add_up(es.drop_last());
    }
}

/// The arguments of a specialization that leaves the size of the cache to the
/// target.
pub fn args_from_data(
    model: &str,
    calib: &str,
    target: &str,
    task_profile: &str,
    quality_budget: QualityBudget,
    out: &str,
) -> (a: SpecializeArgs)
    ensures
        a.model@ == model@,
        a.calib@ == calib@,
        a.target@ == target@,
        a.task_profile@ == task_profile@,
        a.memory_budget is None,
        a.quality_budget == quality_budget,
        a.out@ == out@,
{
    SpecializeArgs {
        model: model.to_owned(),
        calib: calib.to_owned(),
        target: target.to_owned(),
        task_profile: task_profile.to_owned(),
        memory_budget: None,
        quality_budget,
        out: out.to_owned(),
    }
}

/// The bit pattern of the share of routing mass at run time: 0.9.
pub const RUNTIME_TOP_P: u32 = 0x3f66_6666;

/// How the pack is to be run on its target.
pub fn runtime_profile(
    model_name: &str,
    args: &SpecializeArgs,
    target: &TargetHardware,
    capacity: u64,
) -> (p: RuntimeProfile)
    ensures
        p.schema_version == 1,
        p.profile_name@ == model_name@ + "-"@ + args.task_profile@ + "-"@ + args.target@
            + "-specialize"@,
        p.target@ == args.target@,
        p.backend@ == target@.preferred_backend,
        p.policy_kind@ == "top_p"@,
        p.moe_top_p == RUNTIME_TOP_P,
        p.moe_min_experts == 4,
        p.moe_max_experts == 8,
        p.resident_cache_capacity_bytes == capacity,
        p.group_preresolve_top_n == 0,
        p.group_preresolve_max_bytes == 0,
        p.source_model@ == args.model@,
        flags::opt_view(p.source_calibration) == Some(args.calib@),
{
    let mut profile_name = model_name.to_owned();
    profile_name.append("-");
    profile_name.append(args.task_profile.as_str());
    profile_name.append("-");
    profile_name.append(args.target.as_str());
    profile_name.append("-specialize");
    RuntimeProfile {
        schema_version: 1,
        profile_name,
        target: args.target.clone(),
        backend: target.preferred_backend.clone(),
        policy_kind: "top_p".to_owned(),
        moe_top_p: RUNTIME_TOP_P,
        moe_min_experts: 4,
        moe_max_experts: 8,
        resident_cache_capacity_bytes: capacity,
        group_preresolve_top_n: 0,
        group_preresolve_max_bytes: 0,
        source_model: args.model.clone(),
        source_calibration: Some(args.calib.clone()),
    }
}

/// The files of a pack besides its manifest.
pub open spec fn pack_files() -> Seq<Seq<char>> {
    seq![
        "expert_layout.json"@,
        "expert_importance.json"@,
        "expert_coresidency.json"@,
        "phase_policy.json"@,
        "quant_plan.json"@,
        "pruning_plan.json"@,
        "residency_plan.json"@,
        "runtime_profile.json"@,
        "verification_plan.json"@,
        "specialization_report.md"@,
    ]
}

/// The manifest of a pack.
pub fn manifest(model_name: &str, args: &SpecializeArgs, created_at: String) -> (m: Manifest)
    ensures
        m.schema_version == 1,
        m.pack_type@ == "objeta_specialization_pack"@,
        m.model_family@ == "qwen"@,
        m.model_name@ == model_name@,
        m.target@ == args.target@,
        m.created_at@ == created_at@,
        text::views(m.files@) == pack_files(),
        m.notes@ == "Generated by objeta-aot specialize v0.1 (task="@ + args.task_profile@
            + ", quality="@ + args.quality_budget.spec_name() + ", target="@ + args.target@ + ")"@,
{
    let mut notes = "Generated by objeta-aot specialize v0.1 (task=".to_owned();
    notes.append(args.task_profile.as_str());
    notes.append(", quality=");
    notes.append(args.quality_budget.name());
    notes.append(", target=");
    notes.append(args.target.as_str());
    notes.append(")");
    let files = vec![
        "expert_layout.json".to_owned(),
        "expert_importance.json".to_owned(),
        "expert_coresidency.json".to_owned(),
        "phase_policy.json".to_owned(),
        "quant_plan.json".to_owned(),
        "pruning_plan.json".to_owned(),
        "residency_plan.json".to_owned(),
        "runtime_profile.json".to_owned(),
        "verification_plan.json".to_owned(),
        "specialization_report.md".to_owned(),
    ];
    assert(text::views(files@) == pack_files());
    Manifest {
        schema_version: 1,
        pack_type: "objeta_specialization_pack".to_owned(),
        model_family: "qwen".to_owned(),
        model_name: model_name.to_owned(),
        target: args.target.clone(),
        created_at,
        files,
        notes,
    }
}

/// The arguments as a list for the report.
pub open spec fn args_text(args: SpecializeArgs, capacity: u64) -> Seq<char> {
    "- model: `"@ + args.model@ + "`\n- calib: `"@ + args.calib@ + "`\n- target: `"@ + args.target@
        + "`\n- task-profile: `"@ + args.task_profile@ + "`\n- quality-budget: `"@
        + args.quality_budget.spec_name() + "`\n- memory-budget: "@ + text::decimal(
        capacity as nat,
    ) + " bytes\n- out: `"@ + args.out@ + "`"@
}

/// The arguments as a list for the report.
pub fn args_summary(args: &SpecializeArgs, capacity: u64) -> (s: String)
    ensures
        s@ == args_text(*args, capacity),
{
    let mut s = "- model: `".to_owned();
    s.append(args.model.as_str());
    s.append("`\n- calib: `");
    s.append(args.calib.as_str());
    s.append("`\n- target: `");
    s.append(args.target.as_str());
    s.append("`\n- task-profile: `");
    s.append(args.task_profile.as_str());
    s.append("`\n- quality-budget: `");
    s.append(args.quality_budget.name());
    s.append("`\n- memory-budget: ");
    text::push_decimal(&mut s, capacity);
    s.append(" bytes\n- out: `");
    s.append(args.out.as_str());
    s.append("`");
    s
}

/// A tier counts the experts that are of it.
pub proof fn tiers_are_counted(es: Seq<ExpertImportanceEntry>, tier: ExpertTier)
    ensures
        tier_count(es, tier) == es.filter(|e: ExpertImportanceEntry| e.tier == tier).len(),
    decreases es.len(),
{
    reveal(Seq::filter);
    if es.len() > 0 {
        tiers_are_counted(es.drop_last(), tier);
    }
}

/// At run time nine tenths of the routing mass are used, the share of a transport
/// layer.
pub proof fn runs_use_nine_tenths()
    ensures
        ieee::nearest32(RUNTIME_TOP_P, 9, 10),
        RUNTIME_TOP_P == phase_pass::policy_of("transport"@).moe_top_p,
{
    lemma2_to64();
    reveal_strlit("transport");
    reveal_strlit("integrity_frontier");
    reveal_strlit("steering");
    reveal_strlit("projection");
    assert("transport"@.len() == 9 && "integrity_frontier"@.len() == 18);
    assert("steering"@.len() == 8 && "projection"@.len() == 10);
}

/// There can be no fewer experts than none, and no other number than the one that
/// the layout counts where it counts them.
pub proof fn counted_experts_are_possible(layout: ExpertLayout)
    ensures
        layout.logical_routed_expert_count > 0 ==> spec_possible_experts(layout)
            == layout.logical_routed_expert_count,
        layout.logical_routed_expert_count == 0 ==> spec_possible_experts(layout)
            == layout.experts@.len(),
{
}

/// A pack names each of its files once, ten in all.
pub proof fn files_are_named_once(i: int, j: int)
    requires
        0 <= i < j < pack_files().len(),
    ensures
        pack_files().len() == 10,
        pack_files()[i] != pack_files()[j],
{
    reveal_strlit("expert_layout.json");
    reveal_strlit("expert_importance.json");
    reveal_strlit("expert_coresidency.json");
    reveal_strlit("phase_policy.json");
    reveal_strlit("quant_plan.json");
    reveal_strlit("pruning_plan.json");
    reveal_strlit("residency_plan.json");
    reveal_strlit("runtime_profile.json");
    reveal_strlit("verification_plan.json");
    reveal_strlit("specialization_report.md");
    let f = pack_files();
    assert(f[0].len() == 18 && f[1].len() == 22 && f[2].len() == 23 && f[3].len() == 17);
    assert(f[4].len() == 15 && f[5].len() == 17 && f[6].len() == 19 && f[7].len() == 20);
    assert(f[8].len() == 22 && f[9].len() == 24);
    assert(f[1][0] == 'e' && f[8][0] == 'v');
    assert(f[3][1] == 'h' && f[5][1] == 'r');
}

} // verus!
