use objeta::aot::specialize;
use objeta::aot::target::TargetHardware;
use objeta::aot::types::ModelConfig;
use objeta::bench;
use objeta::cache::{CacheCounters, CudaExpertCache, ExpertTensorKind};
use objeta::deepseek::{
    BlockFamily, ExpertLayoutJson, ExpertTensorEntry, ExpertTensorSet, Fp4ExpertTensorSet,
    LayoutJson, ParserMetadata, RouterLayoutJson,
};
use objeta::error;
use objeta::error::CudaErrorKind;
use objeta::flags;
use objeta::gate;
use objeta::moe::{DeepSeekFp4ExpertWeights, ExpertDims};
use objeta::options::ExecutionFormat;
use objeta::quant;
use objeta::quant::QuantFormat;
use objeta::run;
use objeta::run::{RunOutcome, SourcePlan};
use objeta::session;
use objeta::session::{CacheSnapshot, MoeRun, MoeStep, MoeTelemetry};

const DIMS: ExpertDims = ExpertDims { hidden: 256, intermediate: 128, out_dim: 256 };

fn experts(n: usize) -> Vec<DeepSeekFp4ExpertWeights> {
    let gate_up = DIMS.hidden * DIMS.intermediate;
    let down = DIMS.out_dim * DIMS.intermediate;
    (0..n)
        .map(|_| DeepSeekFp4ExpertWeights {
            gate_weight: vec![0; gate_up / 2],
            gate_scale: vec![0; gate_up / 32],
            up_weight: vec![0; gate_up / 2],
            up_scale: vec![0; gate_up / 32],
            down_weight: vec![0; down / 2],
            down_scale: vec![0; down / 32],
        })
        .collect()
}

fn official(
    selected: &[usize],
    cache: &mut Option<CudaExpertCache<Vec<u8>>>,
    with_shared: bool,
) -> MoeTelemetry {
    let list = experts(4);
    let loads = session::plan_fp4(&list, selected);
    let mut run = MoeRun::start(3, QuantFormat::DeepSeekFp4E2M1, false, loads);
    loop {
        match run.advance(cache) {
            MoeStep::Upload { bytes, .. } => {
                run.uploaded(cache, vec![0u8; bytes]);
            }
            MoeStep::Finished => break,
            _ => {}
        }
    }
    run.official_telemetry(cache, DIMS, with_shared)
}

fn no_counters() -> CacheCounters {
    CacheCounters {
        hit: 0,
        miss: 0,
        eviction: 0,
        insert_attempt: 0,
        insert_accept: 0,
        insert_bypass: 0,
        oversized_tensor_bypass: 0,
        oversized_expert_bypass: 0,
        self_eviction_risk: 0,
    }
}

fn outcome(telemetry: MoeTelemetry, cache: CacheSnapshot) -> RunOutcome {
    RunOutcome {
        warmup: 0,
        repeat: 1,
        include_shared: true,
        shared_weight_bytes: Some(1000),
        num_layers: 3,
        has_cache: true,
        cache,
        telemetry,
    }
}

fn entry(name: &str, kind: &str, dtype: &str) -> ExpertTensorEntry {
    ExpertTensorEntry {
        name: name.to_string(),
        layer_id: Some(2),
        expert_id: Some(Some(5)),
        tensor_kind: kind.to_string(),
        shape: vec![1, 1],
        dtype: dtype.to_string(),
        byte_length: 4,
        source_file: "f".to_string(),
        storage_dtype: None,
        logical_dtype: None,
        scale_tensor_name: None,
        scale_dtype: None,
        logical_shape: None,
        block_size: None,
        packed_values_per_byte: None,
    }
}

fn dtype_of(plan: &SourcePlan, key: &str) -> Option<String> {
    plan.dtypes.iter().find(|(k, _)| k == key).map(|(_, d)| d.clone())
}

#[test]
fn official_runs_account_for_every_byte() {
    let per_expert = 2 * (256 * 128 / 2) + 2 * (256 * 128 / 32) + 256 * 128 / 2 + 256 * 128 / 32;
    let shared = 3 * 256 * 128 + 3 * (256 * 128 / 128);
    assert_eq!(DIMS.official_bytes_per_expert(), per_expert);
    assert_eq!(DIMS.shared_bytes_per_expert(), shared);

    let mut cache = Some(CudaExpertCache::new(10 * per_expert));
    let cold = official(&[0, 2], &mut cache, true);
    assert_eq!(cold.routed_fp4_bytes_loaded, 2 * per_expert);
    assert_eq!(cold.routed_fp4_bytes_reused, 0);
    assert_eq!(cold.shared_fp8_bytes_loaded, shared);
    assert_eq!(cold.total_logical_bytes, 2 * per_expert + shared);
    assert_eq!(cold.total_loaded_bytes, 2 * per_expert + shared);
    assert_eq!(cold.resident_cache_miss_count, 12);
    assert_eq!(cold.resident_cache_insert_attempt_count, 0);

    let warm = official(&[0, 2], &mut cache, false);
    assert_eq!(warm.routed_fp4_bytes_loaded, 0);
    assert_eq!(warm.routed_fp4_bytes_reused, 2 * per_expert);
    assert_eq!(warm.shared_fp8_bytes_loaded, 0);
    assert_eq!(warm.total_reused_bytes, 2 * per_expert);
    assert_eq!(warm.resident_cache_hit_count, 12);

    let nothing = official(&[], &mut cache, true);
    assert_eq!(nothing.total_logical_bytes, shared);
    assert_eq!(nothing.selected_expert_count, 0);
}

#[test]
fn runs_are_counted_one_after_another() {
    let mut t = official(&[1], &mut None, true);
    let mut runs = Vec::new();
    t.resident_cache_hit_count = 4;
    t.resident_cache_miss_count = 6;
    run::push_native_run(&mut runs, &t);
    t.resident_cache_hit_count = 9;
    run::push_native_run(&mut runs, &t);
    assert_eq!(runs[0].iteration, 0);
    assert_eq!((runs[0].cache_hit_delta, runs[0].cache_miss_delta), (4, 6));
    assert_eq!(runs[1].iteration, 1);
    assert_eq!((runs[1].cache_hit_delta, runs[1].cache_miss_delta), (5, 0));
    assert_eq!((runs[1].cache_hit_cumulative, runs[1].cache_miss_cumulative), (9, 6));
    assert_eq!(runs[1].total_logical_bytes, 0);

    run::push_official_run(&mut runs, &t);
    assert_eq!(runs[2].iteration, 2);
    assert_eq!(runs[2].cache_hit_delta, 0);
    assert_eq!(runs[2].cache_hit_cumulative, 9);
    assert_eq!(runs[2].total_logical_bytes, t.total_logical_bytes);
    assert_eq!(runs[2].shared_fp8_bytes_loaded, t.shared_fp8_bytes_loaded);
}

#[test]
fn reports_state_what_their_format_knows() {
    let t = official(&[1], &mut None, true);
    let mut counters = no_counters();
    counters.hit = 7;
    let cache = CacheSnapshot { capacity_bytes: 100_000, resident_bytes: 10, counters };
    let set = t.selected_working_set_bytes;

    let native = run::report_facts(ExecutionFormat::NativeFp4, &outcome(t, cache));
    assert_eq!(native.cache_counters.hit, 7);
    assert_eq!(native.warmup_count, None);
    assert!(!native.lists_warm_runs);
    assert_eq!(native.all_layers_fixed_route_resident_bytes, Some(3 * set));
    assert_eq!(native.total_logical_bytes, None);
    assert_eq!(native.shared_total_model_bytes, None);
    let repeated = run::report_facts(
        ExecutionFormat::NativeFp4,
        &RunOutcome { warmup: 2, ..outcome(t, cache) },
    );
    assert_eq!((repeated.warmup_count, repeated.repeat_count), (Some(2), Some(1)));
    assert!(repeated.lists_warm_runs);

    let full = run::report_facts(ExecutionFormat::OfficialRouted, &outcome(t, cache));
    assert_eq!(full.cache_counters, no_counters());
    assert_eq!(full.warmup_count, Some(0));
    assert_eq!(full.total_logical_bytes, Some(t.total_logical_bytes));
    assert_eq!(full.shared_total_model_bytes, Some(3000));
    assert_eq!(full.free_capacity_after_shared_pin, Some(100_000 - 3000 - set));
    assert_eq!(full.official_arithmetic_cpu_reference_available, Some(true));
    let bare = run::report_facts(
        ExecutionFormat::OfficialRouted,
        &RunOutcome { has_cache: false, shared_weight_bytes: None, ..outcome(t, cache) },
    );
    assert_eq!(bare.free_capacity_after_shared_pin, None);
    assert_eq!(bare.shared_total_model_bytes, None);

    let q4 = run::report_facts(ExecutionFormat::Q4Transcode, &outcome(t, cache));
    assert_eq!(q4.cache_counters.hit, 7);
    assert_eq!(q4.all_layers_fixed_route_resident_bytes, None);
    assert_eq!(q4.shared_expert_included, None);
}

#[test]
fn reports_are_labelled() {
    assert_eq!(
        run::source_label(ExecutionFormat::NativeFp4, true),
        "real_deepseek_v4_flash_manual_expert_native_fp4_moe"
    );
    assert_eq!(
        run::source_label(ExecutionFormat::NativeFp4, false),
        "real_deepseek_v4_flash_native_fp4_moe"
    );
    assert_eq!(
        run::source_label(ExecutionFormat::OfficialRouted, true),
        "real_deepseek_v4_flash_official_routed_fp4"
    );
    assert_eq!(
        run::source_label(ExecutionFormat::Q4Transcode, true),
        "real_deepseek_v4_flash_manual_expert_single_layer_moe"
    );
    assert_eq!(
        run::source_label(ExecutionFormat::Q4Transcode, false),
        "real_deepseek_v4_flash_single_layer_moe"
    );
    assert_eq!(run::quant_label(ExecutionFormat::NativeFp4), "DeepSeekFp4E2M1");
    assert_eq!(run::quant_label(ExecutionFormat::OfficialRouted), "DeepSeekFp4E2M1_official");
    assert_eq!(run::quant_label(ExecutionFormat::Q4Transcode), "Q4_0");
}

#[test]
fn shared_experts_are_named_and_keyed() {
    let n = run::shared_expert_names(7, BlockFamily::Decoder);
    assert_eq!(n.gate_weight, "layers.7.ffn.shared_experts.w1.weight");
    assert_eq!(n.gate_scale, "layers.7.ffn.shared_experts.w1.scale");
    assert_eq!(n.up_weight, "layers.7.ffn.shared_experts.w3.weight");
    assert_eq!(n.down_scale, "layers.7.ffn.shared_experts.w2.scale");
    let m = run::shared_expert_names(0, BlockFamily::Mtp);
    assert_eq!(m.up_scale, "mtp.0.ffn.shared_experts.w3.scale");
    let k = run::shared_key(4, ExpertTensorKind::SharedUpWeight);
    assert_eq!((k.layer_id, k.expert_id), (4, 0));
    assert_eq!(k.tensor_kind, ExpertTensorKind::SharedUpWeight);
    assert_eq!(k.quant_format, QuantFormat::DeepSeekFp4E2M1);
}

#[test]
fn sources_are_recorded() {
    let set = Fp4ExpertTensorSet {
        gate_name: "g".to_string(),
        gate_scale_name: "gs".to_string(),
        up_name: "u".to_string(),
        up_scale_name: "us".to_string(),
        down_name: "d".to_string(),
        down_scale_name: "ds".to_string(),
        gate_block_size: 32,
        up_block_size: 32,
        down_block_size: 32,
        gate_logical_shape: vec![1, 32],
        up_logical_shape: vec![1, 32],
        down_logical_shape: vec![1, 32],
    };
    let mut kept = SourcePlan::new();
    kept.add_fp4_expert(12, &set, true);
    assert_eq!(kept.tensor_names, vec!["g", "u", "d"]);
    assert_eq!(kept.scale_names, vec!["gs", "us", "ds"]);
    assert_eq!(dtype_of(&kept, "expert_12_gate_weight"), Some("I8".to_string()));
    assert_eq!(dtype_of(&kept, "expert_12_down_scale"), Some("F8_E8M0".to_string()));
    assert_eq!(dtype_of(&kept, "expert_12_gate"), None);
    let mut decoded = SourcePlan::new();
    decoded.add_fp4_expert(3, &set, false);
    assert_eq!(dtype_of(&decoded, "expert_3_up"), Some("I8".to_string()));

    let meta = ParserMetadata {
        layout: LayoutJson {
            num_layers: 4,
            hidden_size: 8,
            intermediate_size: 8,
            num_experts: 8,
            top_k: 2,
            dtype: "F32".to_string(),
        },
        expert_layout: ExpertLayoutJson {
            layout_kind: "explicit_experts".to_string(),
            tensors: vec![
                entry("layers.2.ffn.experts.5.w1.weight", "gate", "BF16"),
                entry("layers.2.ffn.experts.5.w1b.weight", "gate", "F32"),
                entry("mtp.2.ffn.experts.5.w3.weight", "up", "F16"),
            ],
        },
        router_layout: RouterLayoutJson { routers: vec![] },
    };
    let names = ExpertTensorSet {
        gate_name: "a".to_string(),
        up_name: "b".to_string(),
        down_name: "c".to_string(),
    };
    let mut plain = SourcePlan::new();
    plain.add_plain_expert(&meta, 2, BlockFamily::Decoder, 5, &names);
    assert_eq!(plain.tensor_names, vec!["a", "b", "c"]);
    assert!(plain.scale_names.is_empty());
    assert_eq!(dtype_of(&plain, "gate"), Some("BF16".to_string()));
    assert_eq!(dtype_of(&plain, "up"), None);
}

#[test]
fn benchmarks_read_their_options() {
    let args = |list: &[&str]| list.iter().map(|a| a.to_string()).collect::<Vec<String>>();
    let plain = bench::moe_bench_options(&args(&["bench"]));
    assert_eq!((plain.is_matrix, plain.iters, plain.warmup), (false, 1, 0));
    assert!(plain.single_run);
    assert_eq!(plain.seed, 123);
    let matrix = bench::moe_bench_options(&args(&["bench", "--matrix"]));
    assert_eq!((matrix.is_matrix, matrix.iters, matrix.warmup), (true, 10, 5));
    let reported =
        bench::moe_bench_options(&args(&["bench", "--matrix", "--from-sanity-report", "r.json"]));
    assert_eq!((reported.is_matrix, reported.iters), (false, 1));
    let several = bench::gemv_bench_options(&args(&["bench", "--iters", "1", "--seed", "9"]));
    assert!(!several.single_run);
    assert_eq!((several.iters, several.seed), (1, 9));
    let wide = bench::gemv_bench_options(&args(&["bench", "--matrix", "--iters", "3"]));
    assert_eq!((wide.is_matrix, wide.iters, wide.warmup), (true, 3, 5));
}

#[test]
fn router_elements_are_counted() {
    assert!(gate::validate_router_elements("r", 12, 3, 4).is_ok());
    let e = gate::validate_router_elements("r", 11, 3, 4).unwrap_err();
    assert_eq!(e.kind, CudaErrorKind::InvalidInput);
    assert_eq!(e.source_message, "router tensor 'r' has 11 elements, expected 12");
}

#[test]
fn raised_errors_name_where_they_come_from() {
    let e = gate::validate_router_elements("r", 11, 3, 4).unwrap_err();
    assert_eq!((e.file, e.line, e.module), ("src/gate.rs", 0, "objeta::gate"));
    assert_eq!(
        e.describe(),
        format!(
            "InvalidInput error during {} at objeta::gate:0 (src/gate.rs): {}",
            e.action, e.source_message
        )
    );
    let e = quant::plan_act_quant_device(1, 100).unwrap_err();
    assert_eq!((e.file, e.module), ("src/quant.rs", "objeta::quant"));
    let e = flags::parse_seed_range("x:5").unwrap_err();
    assert_eq!((e.file, e.module), ("src/flags.rs", "objeta::flags"));
}

#[test]
fn causes_are_wrapped_as_they_are() {
    let e = error::wrap_error(CudaErrorKind::Io, "read", "gone", "a.rs", 3, "m");
    assert_eq!(e.kind, CudaErrorKind::Io);
    assert_eq!(e.action, "read");
    assert_eq!(e.source_message, "gone");
    assert_eq!(e.line, 3);
}

#[test]
fn formats_describe_themselves() {
    assert_eq!(QuantFormat::Q4_0.kernel_name(), "q4_gemv");
    assert_eq!(QuantFormat::Q5_0.kernel_name(), "q5_gemv");
    assert_eq!(QuantFormat::IQ3_0.kernel_name(), "iq3_gemv");
    assert_eq!(QuantFormat::DeepSeekFp4E2M1.kernel_name(), "fp4_e2m1_gemv");
    assert_eq!(QuantFormat::DeepSeekFp4E2M1.nibble_order(), "low_first");
}

#[test]
fn targets_and_configs_have_defaults() {
    assert_eq!(TargetHardware::from_name("m1-8gb").default_expert_bytes(), 2 << 20);
    assert_eq!(TargetHardware::from_name("m2-16gb").default_expert_bytes(), 3 << 20);
    assert_eq!(TargetHardware::from_name("cpu-32gb").default_expert_bytes(), 4 << 20);
    assert_eq!(TargetHardware::from_name("other").default_expert_bytes(), 2 << 20);
    let mut config = ModelConfig {
        model_type: None,
        architectures: None,
        num_hidden_layers: None,
        num_experts: None,
        num_local_experts: None,
        vocab_size: None,
        hidden_size: None,
        intermediate_size: None,
        text_config: None,
    };
    assert_eq!(specialize::planned_layers(&config), 40);
    config.num_hidden_layers = Some(12);
    assert_eq!(specialize::planned_layers(&config), 12);
}
