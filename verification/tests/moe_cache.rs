use objeta::cache::{CudaExpertCache, ExpertCacheKey, ExpertTensorKind, ResidencyClass};
use objeta::error::CudaError;
use objeta::moe;
use objeta::moe::{DeepSeekFp4ExpertWeights, ExpertDims, ExpertWeights};
use objeta::quant::{QGemvShape, QuantFormat};
use objeta::session;
use objeta::session::{MoeRun, MoeStep, MoeTelemetry};

const DIMS: ExpertDims = ExpertDims { hidden: 256, intermediate: 512, out_dim: 256 };

fn drive(
    mut run: MoeRun,
    cache: &mut Option<CudaExpertCache<Vec<u8>>>,
    bytes_per_expert: usize,
) -> MoeTelemetry {
    loop {
        match run.advance(cache) {
            MoeStep::Upload { bytes, .. } => {
                let buf = run.uploaded(cache, vec![0u8; bytes]);
                assert_eq!(buf.len(), bytes);
            }
            MoeStep::Finished => break,
            _ => {}
        }
    }
    run.telemetry(cache, bytes_per_expert)
}

fn execute_q4(
    experts: &[ExpertWeights],
    selected: &[usize],
    cache: &mut Option<CudaExpertCache<Vec<u8>>>,
) -> Result<MoeTelemetry, CudaError> {
    moe::validate_selected_q4(experts, selected, DIMS.hidden, DIMS)?;
    let run = MoeRun::start(0, QuantFormat::Q4_0, true, session::plan_q4(experts, selected));
    Ok(drive(run, cache, DIMS.q4_bytes_per_expert()))
}

fn execute_fp4(
    experts: &[DeepSeekFp4ExpertWeights],
    selected: &[usize],
    cache: &mut Option<CudaExpertCache<Vec<u8>>>,
) -> Result<MoeTelemetry, CudaError> {
    moe::validate_selected_fp4(experts, selected, DIMS.hidden, DIMS)?;
    let format = QuantFormat::DeepSeekFp4E2M1;
    let run = MoeRun::start(0, format, true, session::plan_fp4(experts, selected));
    Ok(drive(run, cache, DIMS.fp4_bytes_per_expert()))
}

fn q4_experts(n: usize) -> Vec<ExpertWeights> {
    let gate_up = QGemvShape::q4_0(DIMS.intermediate, DIMS.hidden).quantized_matrix_bytes();
    let down = QGemvShape::q4_0(DIMS.out_dim, DIMS.intermediate).quantized_matrix_bytes();
    (0..n)
        .map(|_| ExpertWeights {
            w_gate: vec![0; gate_up],
            w_up: vec![0; gate_up],
            w_down: vec![0; down],
        })
        .collect()
}

fn fp4_experts(n: usize) -> Vec<DeepSeekFp4ExpertWeights> {
    let gate_up = DIMS.intermediate * DIMS.hidden;
    let down = DIMS.out_dim * DIMS.intermediate;
    (0..n)
        .map(|_| DeepSeekFp4ExpertWeights {
            gate_weight: vec![0; gate_up / 2],
            gate_scale: vec![0; gate_up / 32],
            up_weight: vec![0; gate_up / 2],
            up_scale: vec![0; gate_up / 32],
            down_weight: vec![0; down / 2],
            down_scale: vec![0; down / 32],
        })
        .collect()
}

#[test]
fn test_cuda_expert_cache_behavior() {
    let experts = q4_experts(4);
    let expert_bytes =
        experts[0].w_gate.len() + experts[0].w_up.len() + experts[0].w_down.len();

    // Without a cache everything is loaded.
    {
        let t = execute_q4(&experts, &[0, 1], &mut None).unwrap();
        assert_eq!(t.resident_cache_bytes_reused, 0);
        assert_eq!(t.actual_expert_bytes_loaded, t.logical_expert_bytes_requested);
        assert_eq!(t.resident_cache_capacity_bytes, 0);
        assert_eq!(t.resident_cache_resident_bytes, 0);
        assert_eq!(
            t.logical_expert_bytes_requested,
            t.actual_expert_bytes_loaded + t.resident_cache_bytes_reused
        );
    }

    // A second call for the same experts reuses them.
    {
        let mut cache = Some(CudaExpertCache::new(1000 * 1024));
        let t1 = execute_q4(&experts, &[0, 1], &mut cache).unwrap();
        assert_eq!(t1.resident_cache_bytes_reused, 0);
        assert_eq!(t1.actual_expert_bytes_loaded, t1.logical_expert_bytes_requested);
        assert_eq!(t1.resident_cache_hit_count, 0);
        assert_eq!(t1.resident_cache_miss_count, 6);
        assert_eq!(t1.resident_cache_eviction_count, 0);
        assert_eq!(
            t1.logical_expert_bytes_requested,
            t1.actual_expert_bytes_loaded + t1.resident_cache_bytes_reused
        );

        let t2 = execute_q4(&experts, &[0, 1], &mut cache).unwrap();
        assert_eq!(t2.resident_cache_bytes_reused, t2.logical_expert_bytes_requested);
        assert_eq!(t2.actual_expert_bytes_loaded, 0);
        assert_eq!(t2.resident_cache_hit_count, 6);
        assert_eq!(t2.resident_cache_miss_count, 6);
        assert_eq!(t2.resident_cache_eviction_count, 0);
        assert_eq!(
            t2.logical_expert_bytes_requested,
            t2.actual_expert_bytes_loaded + t2.resident_cache_bytes_reused
        );
    }

    // Where all tensors fit, nothing is evicted.
    {
        let mut cache = Some(CudaExpertCache::new(4 * expert_bytes));
        let t = execute_q4(&experts, &[0, 1, 2, 3], &mut cache).unwrap();
        assert_eq!(t.resident_cache_eviction_count, 0);
        assert_eq!(t.resident_cache_resident_bytes, 4 * expert_bytes);
        assert_eq!(
            t.logical_expert_bytes_requested,
            t.actual_expert_bytes_loaded + t.resident_cache_bytes_reused
        );
    }

    // Where one expert fits, the next one drives it out.
    {
        let mut cache = Some(CudaExpertCache::new(expert_bytes));
        let t1 = execute_q4(&experts, &[0], &mut cache).unwrap();
        assert_eq!(t1.resident_cache_eviction_count, 0);
        assert_eq!(t1.resident_cache_resident_bytes, expert_bytes);

        let t2 = execute_q4(&experts, &[1], &mut cache).unwrap();
        assert!(t2.resident_cache_eviction_count > 0);
        assert_eq!(t2.resident_cache_resident_bytes, expert_bytes);

        let t3 = execute_q4(&experts, &[0], &mut cache).unwrap();
        assert_eq!(t3.actual_expert_bytes_loaded, expert_bytes);
        assert_eq!(t3.resident_cache_bytes_reused, 0);
    }

    // Use changes the order of eviction.
    {
        let mut cache = Some(CudaExpertCache::new(2 * expert_bytes));
        execute_q4(&experts, &[0], &mut cache).unwrap();
        execute_q4(&experts, &[1], &mut cache).unwrap();
        execute_q4(&experts, &[0], &mut cache).unwrap();
        execute_q4(&experts, &[2], &mut cache).unwrap();

        let t0 = execute_q4(&experts, &[0], &mut cache).unwrap();
        assert_eq!(t0.resident_cache_bytes_reused, expert_bytes);

        let t1 = execute_q4(&experts, &[1], &mut cache).unwrap();
        assert_eq!(t1.resident_cache_bytes_reused, 0);
        assert_eq!(t1.actual_expert_bytes_loaded, expert_bytes);
    }
}

#[test]
fn test_oversized_tensor_bypass() {
    let experts = q4_experts(1);
    let gate_len = experts[0].w_gate.len();
    let mut cache = Some(CudaExpertCache::new(gate_len - 1));
    let t = execute_q4(&experts, &[0], &mut cache).unwrap();

    assert_eq!(t.resident_cache_insert_attempt_count, 3);
    assert_eq!(t.resident_cache_insert_accept_count, 0);
    assert_eq!(t.resident_cache_insert_bypass_count, 3);
    assert_eq!(t.resident_cache_oversized_tensor_bypass_count, 3);
    assert_eq!(t.resident_cache_oversized_expert_bypass_count, 0);
    assert_eq!(t.resident_cache_resident_bytes, 0);
    assert_eq!(t.actual_expert_bytes_loaded, t.logical_expert_bytes_requested);
    assert_eq!(t.resident_cache_bytes_reused, 0);
}

#[test]
fn test_oversized_expert_bypass() {
    let experts = q4_experts(1);
    let expert_bytes =
        experts[0].w_gate.len() + experts[0].w_up.len() + experts[0].w_down.len();

    {
        let mut inner = CudaExpertCache::new(expert_bytes - 100);
        inner.bypass_oversized_experts = true;
        let t = execute_q4(&experts, &[0], &mut Some(inner)).unwrap();

        assert_eq!(t.resident_cache_insert_attempt_count, 3);
        assert_eq!(t.resident_cache_insert_accept_count, 0);
        assert_eq!(t.resident_cache_insert_bypass_count, 3);
        assert_eq!(t.resident_cache_oversized_tensor_bypass_count, 0);
        assert_eq!(t.resident_cache_oversized_expert_bypass_count, 1);
        assert_eq!(t.resident_cache_self_eviction_risk_count, 0);
        assert_eq!(t.resident_cache_resident_bytes, 0);
        assert_eq!(t.actual_expert_bytes_loaded, t.logical_expert_bytes_requested);
        assert_eq!(t.resident_cache_bytes_reused, 0);
    }

    {
        let mut inner = CudaExpertCache::new(expert_bytes - 100);
        inner.bypass_oversized_experts = false;
        let t = execute_q4(&experts, &[0], &mut Some(inner)).unwrap();

        assert_eq!(t.resident_cache_self_eviction_risk_count, 1);
        assert_eq!(t.resident_cache_oversized_expert_bypass_count, 0);
        assert!(t.resident_cache_insert_accept_count > 0);
        assert_eq!(
            t.logical_expert_bytes_requested,
            t.actual_expert_bytes_loaded + t.resident_cache_bytes_reused
        );
    }
}

#[test]
fn test_native_fp4_expert_cache() {
    let experts = fp4_experts(4);
    let expert_bytes = (DIMS.intermediate * DIMS.hidden / 2)
        + (DIMS.intermediate * DIMS.hidden / 32)
        + (DIMS.intermediate * DIMS.hidden / 2)
        + (DIMS.intermediate * DIMS.hidden / 32)
        + (DIMS.out_dim * DIMS.intermediate / 2)
        + (DIMS.out_dim * DIMS.intermediate / 32);
    assert_eq!(expert_bytes, 208896);
    assert_eq!(DIMS.fp4_bytes_per_expert(), expert_bytes);

    let mut cache = Some(CudaExpertCache::new(expert_bytes * 2));
    let resident = |c: &Option<CudaExpertCache<Vec<u8>>>| c.as_ref().unwrap().resident_bytes;

    let t0 = execute_fp4(&experts, &[0], &mut cache).unwrap();
    assert_eq!(t0.resident_cache_bytes_reused, 0);
    assert_eq!(t0.actual_expert_bytes_loaded, expert_bytes);
    assert_eq!(resident(&cache), expert_bytes);

    let t1 = execute_fp4(&experts, &[0], &mut cache).unwrap();
    assert_eq!(t1.resident_cache_bytes_reused, expert_bytes);
    assert_eq!(t1.actual_expert_bytes_loaded, 0);
    assert_eq!(resident(&cache), expert_bytes);

    let t2 = execute_fp4(&experts, &[1], &mut cache).unwrap();
    assert_eq!(t2.resident_cache_bytes_reused, 0);
    assert_eq!(t2.actual_expert_bytes_loaded, expert_bytes);
    assert_eq!(resident(&cache), expert_bytes * 2);

    let t3 = execute_fp4(&experts, &[2], &mut cache).unwrap();
    assert_eq!(t3.resident_cache_bytes_reused, 0);
    assert_eq!(t3.actual_expert_bytes_loaded, expert_bytes);
    assert_eq!(resident(&cache), expert_bytes * 2);

    let t4 = execute_fp4(&experts, &[0], &mut cache).unwrap();
    assert_eq!(t4.resident_cache_bytes_reused, 0);
    assert_eq!(t4.actual_expert_bytes_loaded, expert_bytes);
    assert_eq!(
        t4.weight_bytes_loaded + t4.scale_bytes_loaded,
        t4.actual_expert_bytes_loaded
    );
}

#[test]
fn wrong_selections_are_refused() {
    let experts = q4_experts(2);
    assert!(moe::validate_selected_q4(&experts, &[0, 2], DIMS.hidden, DIMS).is_err());
    assert!(moe::validate_selected_q4(&experts, &[0], DIMS.hidden + 1, DIMS).is_err());
    assert!(moe::validate_selected_q4(&experts, &[0, 1], DIMS.hidden, DIMS).is_ok());
    let short = vec![ExpertWeights { w_gate: vec![0], w_up: vec![0], w_down: vec![0] }];
    assert!(moe::validate_selected_q4(&short, &[0], DIMS.hidden, DIMS).is_err());
    assert!(moe::validate_expert_index("run", 3, 4).is_ok());
    assert!(moe::validate_expert_index("run", 4, 4).is_err());
}

fn key(expert_id: usize) -> ExpertCacheKey {
    ExpertCacheKey {
        layer_id: 0,
        expert_id,
        tensor_kind: ExpertTensorKind::Gate,
        quant_format: QuantFormat::Q4_0,
    }
}

#[test]
fn pinned_entries_stay() {
    let mut cache: CudaExpertCache<u32> = CudaExpertCache::new(30);
    assert_eq!(*cache.insert_pinned(key(7), 70, 10), 70);
    for e in 0..4 {
        assert!(cache.can_insert(&key(e), 10));
        assert_eq!(*cache.insert(key(e), e as u32, 10), e as u32);
    }
    assert_eq!(cache.resident_bytes, 30);
    assert_eq!(cache.pinned_bytes, 10);
    assert_eq!(cache.eviction_count, 2);
    assert_eq!(cache.get(&key(7)).map(|b| *b), Some(70));
    assert_eq!(cache.get(&key(0)).map(|b| *b), None);
    assert_eq!(cache.get(&key(3)).map(|b| *b), Some(3));
    assert_eq!((cache.hit_count, cache.miss_count), (2, 1));
    assert!(cache.entries.iter().any(|e| e.residency == ResidencyClass::SharedPinned));
    cache.pin(&key(3));
    assert_eq!(cache.pinned_bytes, 20);
    assert_eq!(cache.evict_lru().map(|(k, b)| (k.expert_id, *b)), Some((2, 2)));
    assert!(cache.evict_lru().is_none());
    cache.reset_counters();
    assert_eq!(cache.hit_count, 0);
    cache.clear();
    assert_eq!(cache.resident_bytes, 0);
}

#[test]
fn telemetry_counts_experts_once() {
    let experts = q4_experts(2);
    let t = execute_q4(&experts, &[1, 1], &mut None).unwrap();
    assert_eq!(t.selected_expert_count, 2);
    assert_eq!(t.bytes_per_expert, DIMS.q4_bytes_per_expert());
    assert_eq!(t.selected_working_set_bytes, DIMS.q4_bytes_per_expert());
    assert_eq!(t.logical_expert_bytes_requested, 2 * DIMS.q4_bytes_per_expert());
    assert_eq!(
        t.bytes_by_tensor_kind.gate + t.bytes_by_tensor_kind.up + t.bytes_by_tensor_kind.down,
        t.logical_expert_bytes_requested
    );
}

#[test]
fn fitting_plans_stay_on_the_device() {
    let experts = fp4_experts(3);
    let per_expert = DIMS.fp4_bytes_per_expert();
    let mut cache = Some(CudaExpertCache::new(2 * per_expert));
    execute_fp4(&experts, &[0], &mut cache).unwrap();
    let first = execute_fp4(&experts, &[1, 2], &mut cache).unwrap();
    assert_eq!(first.actual_expert_bytes_loaded, 2 * per_expert);
    assert_eq!(first.resident_cache_eviction_count, 6);
    let second = execute_fp4(&experts, &[1, 2], &mut cache).unwrap();
    assert_eq!(second.actual_expert_bytes_loaded, 0);
    assert_eq!(second.resident_cache_bytes_reused, 2 * per_expert);
    assert_eq!(second.resident_cache_eviction_count, 6);
}

#[test]
fn a_second_run_is_all_hits() {
    let dims = ExpertDims { hidden: 64, intermediate: 32, out_dim: 64 };
    let experts: Vec<DeepSeekFp4ExpertWeights> = (0..4)
        .map(|_| DeepSeekFp4ExpertWeights {
            gate_weight: vec![0x21; 1024],
            gate_scale: vec![127; 64],
            up_weight: vec![0x21; 1024],
            up_scale: vec![127; 64],
            down_weight: vec![0x21; 1024],
            down_scale: vec![127; 64],
        })
        .collect();
    let mut cache = Some(CudaExpertCache::new(1_000_000));
    let mut once = || {
        moe::validate_selected_fp4(&experts, &[0, 1], 64, dims).unwrap();
        let loads = session::plan_fp4(&experts, &[0, 1]);
        if let Some(c) = cache.as_mut() {
            c.configure(1_000_000, false);
        }
        let run = MoeRun::start(0, QuantFormat::DeepSeekFp4E2M1, true, loads);
        drive(run, &mut cache, dims.fp4_bytes_per_expert())
    };
    let first = once();
    assert_eq!(first.bytes_per_expert, 3264);
    assert_eq!(first.logical_expert_bytes_requested, 6528);
    assert_eq!(first.weight_bytes_loaded, 6144);
    assert_eq!(first.scale_bytes_loaded, 384);
    let second = once();
    assert_eq!(second.resident_cache_hit_count, 12);
    assert_eq!(second.actual_expert_bytes_loaded, 0);
    assert_eq!(second.resident_cache_bytes_reused, 6528);
}

#[test]
fn runs_without_a_cache_reuse_nothing() {
    let experts = fp4_experts(2);
    let t = execute_fp4(&experts, &[0, 1], &mut None).unwrap();
    assert_eq!(t.weight_bytes_reused, 0);
    assert_eq!(t.scale_bytes_reused, 0);
    assert_eq!(t.actual_expert_bytes_loaded, t.logical_expert_bytes_requested);
}
