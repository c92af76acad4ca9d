use objeta::aot::pack_pass;
use objeta::aot::pack_pass::ReportNumbers;
use objeta::aot::phase_pass;
use objeta::aot::precision_pass;
use objeta::aot::pruning_pass::PruningRun;
use objeta::aot::specialize;
use objeta::aot::target::{TargetHardware, GB};
use objeta::aot::types::{
    ExpertImportance, ExpertImportanceEntry, ExpertLayout, ExpertLayoutKind, ExpertTensorKind,
    ExpertTier, ModelConfig, PhasePolicy, PruningPlan, PruningPlanSummary, QualityBudget,
    ResidencyPlanSummary, RouterEntry, TensorRef,
};
use objeta::aot::util;
use objeta::aot::util::ModelProbe;
use objeta::aot::verification_pass;

fn prune(
    importance: &ExpertImportance,
    phase: &PhasePolicy,
    budget: &QualityBudget,
    coverage: f64,
) -> PruningPlan {
    let mut run = PruningRun::start(importance, phase, budget, coverage.to_bits());
    loop {
        run.settle();
        match run.pending() {
            None => break,
            Some(q) => {
                let mass = f64::from_bits(q.frequency)
                    * f64::from_bits(q.avg_gate_weight)
                    * (1.0 - f64::from_bits(q.importance));
                let sum = f64::from_bits(q.cumulative) + mass;
                run.decide(mass.to_bits(), sum.to_bits());
            }
        }
    }
    run.finish()
}

fn make_importance(entries: Vec<(u32, u32, ExpertTier)>) -> ExpertImportance {
    ExpertImportance {
        schema_version: 1,
        experts: entries
            .into_iter()
            .map(|(layer, expert, tier)| ExpertImportanceEntry {
                layer,
                expert,
                selected_count: 10,
                frequency: 0.5f64.to_bits(),
                avg_gate_weight: 0.3f64.to_bits(),
                max_gate_weight: 0.4f64.to_bits(),
                importance: 0.8f64.to_bits(),
                tier,
                recommended_format: "q4".to_string(),
                eviction_priority: 0.2f64.to_bits(),
            })
            .collect(),
    }
}

fn make_entry(
    layer: u32,
    expert: u32,
    importance: f64,
    tier: ExpertTier,
    freq: f64,
    avg_gate: f64,
) -> ExpertImportanceEntry {
    ExpertImportanceEntry {
        layer,
        expert,
        selected_count: 10,
        frequency: freq.to_bits(),
        avg_gate_weight: avg_gate.to_bits(),
        max_gate_weight: avg_gate.to_bits(),
        importance: importance.to_bits(),
        tier,
        recommended_format: "q4".to_string(),
        eviction_priority: (1.0 - importance).to_bits(),
    }
}

fn summary(prune: usize, compress: usize, loss: f64, budget: &str, threshold: f64) -> PruningPlan {
    PruningPlan {
        schema_version: 1,
        summary: PruningPlanSummary {
            protect_count: 0,
            keep_count: 0,
            cold_tier_count: 0,
            prune_candidate_count: prune,
            compress_count: compress,
            estimated_routing_mass_loss: loss.to_bits(),
            quality_budget: budget.to_string(),
            mass_loss_threshold: threshold.to_bits(),
            safe: true,
            estimated_only: true,
            requires_verification: true,
        },
        experts: vec![],
    }
}

#[test]
fn first_layers_are_integrity_frontier() {
    let policy = phase_pass::run(40);
    assert_eq!(policy.layers[0].phase, "integrity_frontier");
    assert_eq!(policy.layers[1].phase, "integrity_frontier");
    assert_eq!(policy.layers[2].phase, "integrity_frontier");
}

#[test]
fn gqa_layers_are_steering() {
    let policy = phase_pass::run(40);
    assert_eq!(policy.layers[3].phase, "steering");
    assert_eq!(policy.layers[7].phase, "steering");
    assert_eq!(policy.layers[23].phase, "steering");
}

#[test]
fn last_layers_are_projection() {
    let policy = phase_pass::run(40);
    assert_eq!(policy.layers[38].phase, "projection");
    assert_eq!(policy.layers[39].phase, "projection");
}

#[test]
fn remaining_layers_are_transport() {
    let policy = phase_pass::run(40);
    assert_eq!(policy.layers[4].phase, "transport");
    assert_eq!(policy.layers[10].phase, "transport");
    assert_eq!(policy.layers[20].phase, "transport");
}

#[test]
fn integrity_frontier_uses_exact_policy() {
    let policy = phase_pass::run(40);
    assert_eq!(policy.layers[0].recommended_policy.policy_kind, "exact");
    assert_eq!(policy.layers[0].recommended_policy.moe_min_experts, 8);
}

#[test]
fn phase_policy_has_source_and_confidence() {
    let policy = phase_pass::run(40);
    assert_eq!(policy.source, "heuristic_lko_v1");
    assert_eq!(policy.confidence, "experimental");
    assert_eq!(policy.layers.len(), 40);
}

#[test]
fn phases_are_read_back_by_layer() {
    let policy = phase_pass::run(12);
    assert_eq!(phase_pass::phase_for_layer(&policy, 1), "integrity_frontier");
    assert_eq!(phase_pass::phase_for_layer(&policy, 3), "steering");
    assert_eq!(phase_pass::phase_for_layer(&policy, 11), "projection");
    assert_eq!(phase_pass::phase_for_layer(&policy, 12), "transport");
    assert_eq!(phase_pass::classify_layer(3, 12), "steering");
    assert_eq!(
        f32::from_bits(phase_pass::policy_for_phase("integrity_frontier").moe_top_p),
        1.0
    );
}

#[test]
fn quant_plan_router_always_q8() {
    let importance = make_importance(vec![]);
    let phase = phase_pass::run(40);
    let routers = vec![RouterEntry {
        layer: 5,
        tensor: TensorRef {
            tensor_kind: ExpertTensorKind::Router,
            tensor_name: "router.5".to_string(),
            source_file: "mock.safetensors".to_string(),
            shape: None,
            dtype: None,
            byte_offset: None,
            byte_len: None,
        },
    }];
    let target = TargetHardware::from_name("m1-8gb");
    let plan = precision_pass::run(&importance, &phase, &routers, &target);
    let router_entry = plan.entries.iter().find(|e| e.kind == "router").unwrap();
    assert_eq!(router_entry.recommended_format, "q8");
}

#[test]
fn quant_plan_hot_protected_gets_q5() {
    let importance = make_importance(vec![(0, 42, ExpertTier::Hot)]);
    let phase = phase_pass::run(40);
    let target = TargetHardware::from_name("m1-8gb");
    let plan = precision_pass::run(&importance, &phase, &[], &target);
    let entry = plan
        .entries
        .iter()
        .find(|e| e.layer == 0 && e.expert == Some(42))
        .unwrap();
    assert_eq!(entry.recommended_format, "q5");
    assert!(entry.reason.contains("integrity_frontier"));
}

#[test]
fn quant_plan_transport_cold_gets_iq3() {
    let importance = make_importance(vec![(10, 99, ExpertTier::Cold)]);
    let phase = phase_pass::run(40);
    let target = TargetHardware::from_name("rtx3070-8gb-vram-32gb-ram");
    let plan = precision_pass::run(&importance, &phase, &[], &target);
    let entry = plan
        .entries
        .iter()
        .find(|e| e.layer == 10 && e.expert == Some(99))
        .unwrap();
    assert_eq!(entry.recommended_format, "iq3");
}

#[test]
fn quant_plan_transport_cold_falls_back_on_m1() {
    let importance = make_importance(vec![(10, 99, ExpertTier::Cold)]);
    let phase = phase_pass::run(40);
    let target = TargetHardware::from_name("m1-8gb");
    let plan = precision_pass::run(&importance, &phase, &[], &target);
    let entry = plan
        .entries
        .iter()
        .find(|e| e.layer == 10 && e.expert == Some(99))
        .unwrap();
    assert_eq!(entry.recommended_format, "q4");
    assert!(entry.reason.contains("target_fallback_from_iq3"));
}

#[test]
fn protected_layers_never_pruned() {
    let importance = ExpertImportance {
        schema_version: 1,
        experts: vec![make_entry(0, 1, 0.05, ExpertTier::Cold, 0.01, 0.01)],
    };
    let phase = phase_pass::run(40);
    let plan = prune(&importance, &phase, &QualityBudget::Aggressive, 1.0);
    assert_eq!(plan.experts[0].action, "protect");
}

#[test]
fn conservative_prunes_less_than_aggressive() {
    let mut experts = Vec::new();
    for i in 0..20u32 {
        experts.push(make_entry(10, i, 0.05 + (i as f64 * 0.01), ExpertTier::Cold, 0.1, 0.05));
    }
    let importance = ExpertImportance { schema_version: 1, experts };
    let phase = phase_pass::run(40);

    let conservative = prune(&importance, &phase, &QualityBudget::Conservative, 1.0);
    let aggressive = prune(&importance, &phase, &QualityBudget::Aggressive, 1.0);

    let conservative_pruned = conservative
        .experts
        .iter()
        .filter(|e| e.action == "prune_candidate" || e.action == "compress")
        .count();
    let aggressive_pruned = aggressive
        .experts
        .iter()
        .filter(|e| e.action == "prune_candidate" || e.action == "compress")
        .count();

    assert!(
        conservative_pruned <= aggressive_pruned,
        "conservative={} should be <= aggressive={}",
        conservative_pruned,
        aggressive_pruned
    );
}

#[test]
fn cold_expert_gets_compress_or_prune() {
    let importance = ExpertImportance {
        schema_version: 1,
        experts: vec![make_entry(10, 99, 0.05, ExpertTier::Cold, 0.1, 0.02)],
    };
    let phase = phase_pass::run(40);
    let plan = prune(&importance, &phase, &QualityBudget::Aggressive, 1.0);
    let entry = &plan.experts[0];
    assert!(
        entry.action == "prune_candidate" || entry.action == "compress",
        "got action: {}",
        entry.action
    );
    assert_eq!(f64::from_bits(entry.estimated_mass_loss), 0.1 * 0.02 * (1.0 - 0.05));
    assert_eq!(entry.target_format, Some("iq2".to_string()));
}

#[test]
fn coverage_gate_disables_pruning() {
    let importance = ExpertImportance {
        schema_version: 1,
        experts: vec![make_entry(10, 99, 0.05, ExpertTier::Cold, 0.1, 0.02)],
    };
    let phase = phase_pass::run(40);
    let plan = prune(&importance, &phase, &QualityBudget::Aggressive, 0.50);
    assert_eq!(plan.experts[0].action, "keep");
    assert!(plan.experts[0].reason.contains("low_coverage"));
}

#[test]
fn mass_loss_gate_blocks_over_budget() {
    let mut experts = Vec::new();
    for i in 0..100u32 {
        experts.push(make_entry(10, i, 0.05, ExpertTier::Cold, 0.5, 0.1));
    }
    let importance = ExpertImportance { schema_version: 1, experts };
    let phase = phase_pass::run(40);
    let plan = prune(&importance, &phase, &QualityBudget::Conservative, 1.0);
    let pruned = plan
        .experts
        .iter()
        .filter(|e| e.action == "prune_candidate" || e.action == "compress")
        .count();
    assert!(pruned < 100, "expected budget gate to limit pruning, got {}", pruned);
    assert!(plan.summary.safe);
}

#[test]
fn pruning_plan_has_estimated_only_and_requires_verification() {
    let importance = ExpertImportance {
        schema_version: 1,
        experts: vec![make_entry(10, 42, 1.0, ExpertTier::Hot, 1.0, 0.5)],
    };
    let plan = prune(&importance, &phase_pass::run(40), &QualityBudget::Balanced, 0.0);
    assert!(plan.summary.estimated_only);
    assert!(plan.summary.requires_verification);
    assert_eq!(plan.summary.keep_count, 1);
    assert_eq!(plan.summary.quality_budget, "balanced");
}

#[test]
fn pruning_actions_add_up_and_plans_are_ordered() {
    let importance = ExpertImportance {
        schema_version: 1,
        experts: vec![
            make_entry(20, 1, 0.9, ExpertTier::Hot, 0.5, 0.5),
            make_entry(3, 7, 0.2, ExpertTier::Cold, 0.5, 0.5),
            make_entry(10, 9, 0.3, ExpertTier::Cold, 0.001, 0.001),
            make_entry(10, 2, 0.1, ExpertTier::Cold, 0.001, 0.001),
            make_entry(0, 5, 0.4, ExpertTier::Warm, 0.5, 0.5),
        ],
    };
    let plan = prune(&importance, &phase_pass::run(40), &QualityBudget::Balanced, 1.0);
    let s = &plan.summary;
    assert_eq!(
        s.protect_count
            + s.keep_count
            + s.cold_tier_count
            + s.compress_count
            + s.prune_candidate_count,
        5
    );
    let told: Vec<(u32, u32, &str)> =
        plan.experts.iter().map(|e| (e.layer, e.expert, e.action.as_str())).collect();
    assert_eq!(
        told,
        vec![
            (0, 5, "protect"),
            (3, 7, "cold_tier"),
            (10, 2, "prune_candidate"),
            (10, 9, "compress"),
            (20, 1, "keep"),
        ]
    );
}

#[test]
fn target_hardware_m1_8gb() {
    let t = TargetHardware::from_name("m1-8gb");
    assert_eq!(t.ram_bytes, 8 * GB);
    assert_eq!(t.vram_bytes, 0);
    assert!(!t.supports_gpu);
    assert_eq!(t.recommended_cache_bytes, 3 * GB);
    assert_eq!(t.preferred_backend, "fused_row_parallel");
}

#[test]
fn target_hardware_rtx3070_differs_from_m1() {
    let m1 = TargetHardware::from_name("m1-8gb");
    let rtx = TargetHardware::from_name("rtx3070-8gb-vram-32gb-ram");
    assert!(rtx.ram_bytes > m1.ram_bytes);
    assert!(rtx.vram_bytes > 0);
    assert!(m1.vram_bytes == 0);
    assert!(rtx.supports_gpu);
    assert!(!m1.supports_gpu);
    assert_ne!(rtx.preferred_backend, m1.preferred_backend);
    assert!(rtx.recommended_cache_bytes > m1.recommended_cache_bytes);
    assert!(rtx.preferred_quant_formats.iter().any(|f| f == "iq3"));
}

#[test]
fn rtx3070_target_profile_differs_from_m1() {
    let m1 = TargetHardware::from_name("m1-8gb");
    let rtx = TargetHardware::from_name("rtx3070-8gb-vram-32gb-ram");

    assert!(rtx.ram_bytes > m1.ram_bytes);
    assert!(rtx.vram_bytes > 0);
    assert_eq!(m1.vram_bytes, 0);

    assert!(rtx.supports_gpu);
    assert!(!m1.supports_gpu);

    assert_ne!(rtx.preferred_backend, m1.preferred_backend);
    assert_eq!(rtx.preferred_backend, "cuda_fused");
    assert_eq!(m1.preferred_backend, "fused_row_parallel");

    assert!(rtx.recommended_cache_bytes > m1.recommended_cache_bytes);

    assert!(rtx.preferred_quant_formats.iter().any(|f| f == "iq3"));
    assert!(!m1.preferred_quant_formats.iter().any(|f| f == "iq3"));
}

#[test]
fn target_hardware_generic_fallback() {
    let t = TargetHardware::from_name("unknown-device");
    assert_eq!(t.ram_bytes, 16 * GB);
    assert!(!t.preferred_quant_formats.is_empty());
}

#[test]
fn target_hardware_cpu_32gb() {
    let t = TargetHardware::from_name("cpu-32gb");
    assert_eq!(t.ram_bytes, 32 * GB);
    assert_eq!(t.vram_bytes, 0);
    assert_eq!(t.preferred_backend, "cpu_parallel");
}

fn bytes_of(s: &str) -> Option<u64> {
    let number = util::bytes_number(s).and_then(|n| n.parse::<f64>().ok()).map(|v| v.to_bits());
    util::parse_bytes_human(s, number)
}

#[test]
fn parse_human_bytes_gb() {
    assert_eq!(bytes_of("3GB"), Some(3 * 1024 * 1024 * 1024));
}

#[test]
fn parse_human_bytes_mb() {
    assert_eq!(bytes_of("512MB"), Some(512 * 1024 * 1024));
}

#[test]
fn parse_human_bytes_raw() {
    assert_eq!(bytes_of("1024"), Some(1024));
}

#[test]
fn parse_human_bytes_empty() {
    assert_eq!(bytes_of(""), None);
}

#[test]
fn sizes_may_be_fractions() {
    assert_eq!(bytes_of("1.5gb"), Some(3 * 512 * 1024 * 1024));
    assert_eq!(bytes_of("2 KB"), Some(2048));
    assert_eq!(bytes_of("lots"), None);
}

#[test]
fn verification_plan_includes_smoke() {
    let pruning = summary(0, 0, 0.0, "conservative", 0.02);
    let plan = verification_pass::run(&QualityBudget::Conservative, &pruning);
    assert!(plan.checks.iter().any(|c| c.kind == "smoke_generation"));
    assert!(plan.checks.iter().any(|c| c.kind == "oracle_layer_trace"));
    assert!(plan.checks.iter().any(|c| c.kind == "routing_mass_loss"));
    assert!(!plan.checks.iter().any(|c| c.kind == "pruning_mass_loss_budget"));
}

#[test]
fn pruning_budget_check_added_when_pruning_exists() {
    let pruning = summary(5, 3, 0.015, "balanced", 0.05);
    let plan = verification_pass::run(&QualityBudget::Balanced, &pruning);
    assert!(plan.checks.iter().any(|c| c.kind == "pruning_mass_loss_budget"));
}

#[test]
fn coverage_589_over_10240_is_about_five_point_seven_five_percent() {
    let coverage = 589.0 / 10240.0;
    let pct = coverage * 100.0;
    assert!((pct - 5.751953125_f64).abs() < 1e-9);
    assert!(pct < 100.0);
}

#[test]
fn budgets_are_read_by_name() {
    assert_eq!(QualityBudget::from_str_loose("BALANCED"), Some(QualityBudget::Balanced));
    assert_eq!(QualityBudget::from_str_loose("reckless"), None);
    assert!(specialize::parse_quality_budget("reckless").is_err());
    assert_eq!(
        f64::from_bits(QualityBudget::Conservative.mass_loss_threshold()),
        0.02
    );
    assert_eq!(f64::from_bits(QualityBudget::Balanced.mass_loss_threshold()), 0.05);
    assert_eq!(f64::from_bits(QualityBudget::Aggressive.mass_loss_threshold()), 0.10);
}

#[test]
fn model_files_are_resolved_or_refused() {
    let dir = ModelProbe {
        is_file: false,
        file_name: "m".to_string(),
        sibling_config: None,
        sibling_config_exists: false,
        index_path: "m/model.safetensors.index.json".to_string(),
        index_exists: true,
        config_path: "m/config.json".to_string(),
        config_exists: true,
    };
    let files = util::resolve_model_files("m", &dir).unwrap();
    assert_eq!(files.index_path, "m/model.safetensors.index.json");
    assert_eq!(files.config_path, "m/config.json");
    let bare = ModelProbe { config_exists: false, ..dir };
    assert!(util::resolve_model_files("m", &bare).is_err());
}

#[test]
fn numbers_are_read_after_a_needle() {
    assert_eq!(util::extract_number_after("model.layers.31.mlp", "layers."), Some(31));
    assert_eq!(util::extract_number_after("model.layers.x", "layers."), None);
    assert_eq!(util::extract_number_after("model", "layers."), None);
    assert_eq!(util::now_rfc3339ish(Some(12)), "unix:12");
}

#[test]
fn names_are_inferred() {
    let mut config = ModelConfig::default();
    assert_eq!(util::infer_model_name(&Some("qwen36".to_string()), &config), "qwen36");
    config.model_type = Some("qwen3_moe".to_string());
    assert_eq!(util::infer_model_name(&None, &config), "qwen3_moe");
}

#[test]
fn specialization_report_contains_required_sections() {
    let args = specialize::args_from_data(
        "m",
        "c.jsonl",
        "m1-8gb",
        "coding",
        QualityBudget::Conservative,
        "out",
    );
    let target = TargetHardware::from_name(&args.target);
    let capacity = specialize::cache_capacity(&args, &target);
    let policy = phase_pass::run(40);
    let layout = ExpertLayout {
        schema_version: 1,
        model: "m".to_string(),
        model_type: Some("qwen3_moe".to_string()),
        architectures: vec![],
        num_layers: 40,
        num_experts: 256,
        vocab_size: None,
        layout_kind: ExpertLayoutKind::PerExpert,
        logical_routed_expert_count: 40 * 256,
        experts: vec![],
        packed_expert_layers: vec![],
        shared_experts: vec![],
        routers: vec![],
        unknown_tensors: vec![],
        warnings: vec![],
    };
    let importance = make_importance(vec![(10, 42, ExpertTier::Hot), (10, 7, ExpertTier::Warm)]);
    let quant = precision_pass::run(&importance, &policy, &layout.routers, &target);
    let coverage = importance.experts.len() as f64 / specialize::possible_experts(&layout) as f64;
    let pruning = prune(&importance, &policy, &args.quality_budget, coverage);
    let profile = specialize::runtime_profile("m", &args, &target, capacity);
    let verification = verification_pass::run(&args.quality_budget, &pruning);
    let manifest = specialize::manifest("m", &args, util::now_rfc3339ish(None));
    let numbers = ReportNumbers {
        cache_gb: format!("{:.2}", capacity as f64 / GB as f64),
        coverage: coverage.to_bits(),
        coverage_pct: format!("{:.2}", coverage * 100.0),
        mass_threshold: "0.02".to_string(),
        mass_threshold_pct: "2.0".to_string(),
        mass_loss_short: "0.0".to_string(),
        mass_loss: "0.000000".to_string(),
        mass_loss_pct: "0.0".to_string(),
        hot_mb: "0.0".to_string(),
        top_p: "0.90".to_string(),
    };
    let residency = ResidencyPlanSummary {
        initial_hot_expert_count: 1,
        initial_hot_expert_bytes: 0,
        eviction_priority_count: 1,
        bytes_fallback_expert_count: 0,
    };
    let report = pack_pass::generate_report(
        &manifest,
        &layout,
        &importance,
        1,
        &policy,
        &quant,
        &pruning,
        capacity,
        &residency,
        &profile,
        &verification,
        &specialize::args_summary(&args, capacity),
        &numbers,
    );

    assert!(report.contains("## Target Hardware"), "missing Target Hardware section");
    assert!(report.contains("m1-8gb"), "missing target name");
    assert!(report.contains("## Calibration Coverage"), "missing Calibration Coverage section");
    assert!(report.contains("Coverage ratio"), "missing coverage ratio row");
    assert!(report.contains("## Phase Summary"), "missing Phase Summary section");
    assert!(report.contains("heuristic_lko_v1"), "missing phase source");
    assert!(report.contains("experimental"), "missing phase confidence");
    assert!(report.contains("integrity_frontier"), "missing integrity_frontier phase");
    assert!(report.contains("## Precision Summary"), "missing Precision Summary section");
    assert!(report.contains("q8"), "missing q8 row");
    assert!(report.contains("q4"), "missing q4 row");
    assert!(report.contains("## Pruning Summary"), "missing Pruning Summary section");
    assert!(report.contains("estimated_only"), "missing estimated_only flag");
    assert!(report.contains("requires_verification"), "missing requires_verification flag");
    assert!(report.contains("protect"), "missing protect row");
    assert!(report.contains("Mass-loss threshold"), "missing mass-loss threshold row");
    assert!(report.contains("## Safety Gates"), "missing Safety Gates section");

    assert_eq!(capacity, 3 * GB);
    assert_eq!(profile.profile_name, "m-coding-m1-8gb-specialize");
    assert_eq!(profile.backend, "fused_row_parallel");
    assert_eq!(f32::from_bits(profile.moe_top_p), 0.90);
    assert_eq!(manifest.files.len(), 10);
    assert_eq!(pack_pass::count_phase(&policy, "integrity_frontier"), 3);
    assert_eq!(specialize::count_tier(&importance, ExpertTier::Hot), 1);
    assert_eq!(pack_pass::count_format(&quant, "iq2"), 0);
}
