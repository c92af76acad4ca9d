use objeta::analysis;
use objeta::analysis::{Family, GeometryFacts, GeometryMeans, LayerZone, ModelShape, ObjetaError, Phase};
use objeta::device;
use objeta::device::{AttentionBackend, BackendInitOptions, CudaBackendBuilder, CudaDeviceInfo};
use objeta::error::{CudaError, CudaErrorKind};
use objeta::metal;

fn info(ordinal: usize, driver_version: i32) -> CudaDeviceInfo {
    CudaDeviceInfo {
        ordinal,
        name: format!("gpu{}", ordinal),
        total_global_mem_bytes: 8 << 30,
        compute_capability_major: 8,
        compute_capability_minor: 6,
        driver_version,
        runtime_version: 12060,
    }
}

fn phase(mean_intra: f64, eff_rank: f64, intra_std: f64) -> Phase {
    analysis::classify_phase(mean_intra.to_bits(), eff_rank.to_bits(), intra_std.to_bits())
}

fn bits(values: &[f64]) -> Vec<u64> {
    values.iter().map(|v| v.to_bits()).collect()
}

#[test]
fn test_phase_classification() {
    assert_eq!(phase(0.99, 1.5, 0.01), Phase::Collapse1D);
    assert_eq!(phase(0.1, 10.0, 0.15), Phase::Split2D);
    assert_eq!(phase(0.05, 20.0, 0.5), Phase::MixedField);
}

#[test]
fn families_are_told_apart() {
    let family = |a: f64, b: f64| analysis::classify_family(a.to_bits(), b.to_bits());
    assert_eq!(family(0.95, -0.05), Family::SphericalSteering);
    assert_eq!(family(0.95, -0.5), Family::ResidualTransport);
    assert_eq!(family(0.5, 0.0), Family::ResidualTransport);
}

#[test]
fn versions_are_shown() {
    assert_eq!(info(0, 12060).driver_version_string(), "12.6.0");
    assert_eq!(info(0, 11081).driver_version_string(), "11.8.1");
    assert_eq!(info(0, 0).driver_version_string(), "0.0.0");
    assert_eq!(info(0, -12063).driver_version_string(), "-12.-6.-3");
    assert_eq!(info(0, 5).runtime_version_string(), "12.6.0");
}

#[test]
fn names_are_decoded() {
    let mut raw: Vec<i8> = "  NVIDIA \u{e9} ".bytes().map(|b| b as i8).collect();
    raw.push(0);
    raw.push(65);
    assert_eq!(device::decode_device_name(&raw), "NVIDIA \u{e9}");
    assert_eq!(device::decode_device_name(&[-1, 65, 0]), "\u{fffd}A");
    assert_eq!(device::name_bytes(&[65, -1, 0, 66]), vec![65, 255]);
}

#[test]
fn devices_are_selected_by_ordinal() {
    let devices = [info(3, 1), info(1, 2)];
    assert_eq!(device::select_device(&devices, 1).unwrap(), 1);
    let e = device::select_device(&devices, 0).unwrap_err();
    assert_eq!(e.kind, CudaErrorKind::InvalidInput);
    assert_eq!(e.action, "select CUDA device ordinal 0");
    assert_eq!(e.source_message, "device ordinal is out of range");
    assert_eq!(device::compute_arch_literal(8, 9), Some("compute_89"));
    assert_eq!(device::compute_arch_literal(4, 2), None);
}

#[test]
fn builders_keep_what_is_not_set() {
    let b = CudaBackendBuilder::new().device_ordinal(2).stream_count(0);
    assert_eq!((b.device_ordinal, b.stream_count), (2, 1));
    assert_eq!(CudaBackendBuilder::default(), CudaBackendBuilder::new());
    let o = BackendInitOptions::default();
    assert_eq!((o.device_ordinal, o.stream_count), (0, 1));
}

#[test]
fn buffers_must_fit() {
    assert!(device::validate_pinned_copy(4, 4).is_ok());
    assert_eq!(
        device::validate_pinned_copy(4, 5).unwrap_err().source_message,
        "device len 4 != pinned host len 5"
    );
    assert_eq!(
        device::validate_device_copy(1, 2).unwrap_err().source_message,
        "src len 1 != dst len 2"
    );
    assert_eq!(device::check_stream(2, 2).unwrap_err().action, "select CUDA stream 2");
    assert!(device::check_stream(1, 2).is_ok());
    assert!(device::validate_smoke_gemv(6, 3, 2, 2, 3).is_ok());
    assert_eq!(
        device::validate_smoke_gemv(5, 3, 2, 2, 3).unwrap_err().source_message,
        "matrix len 5 != rows*cols 6"
    );
    assert!(device::validate_smoke_gemv(6, 2, 2, 2, 3).is_err());
    assert!(device::validate_smoke_gemv(6, 3, 3, 2, 3).is_err());
}

#[test]
fn attention_is_not_supported() {
    let e = AttentionBackend::new().status().unwrap_err();
    assert_eq!(e.kind, CudaErrorKind::Unsupported);
    assert_eq!(e.action, "initialize CUDA attention backend");
}

#[test]
fn errors_are_described() {
    let e = CudaError::new(CudaErrorKind::Driver, "copy", "no memory", "stream.rs", 7, "stream");
    assert_eq!(e.kind.name(), "Driver");
    assert_eq!(
        e.describe(),
        "Driver error during copy at stream:7 (stream.rs): no memory"
    );
    assert_eq!(
        ObjetaError::MissingTensor("x".to_string()).describe(),
        "Missing tensor: x"
    );
    assert_eq!(ObjetaError::Io("gone".to_string()).describe(), "IO error: gone");
    assert_eq!(ObjetaError::Parse("bad".to_string()).describe(), "Parse error: bad");
    assert_eq!(ObjetaError::Analysis("bad".to_string()).describe(), "Analysis error: bad");
    assert_eq!(
        ObjetaError::UnsupportedArchitecture("rnn".to_string()).describe(),
        "Unsupported model architecture: rnn"
    );
}

#[test]
fn shaders_are_compiled_by_one_command() {
    assert_eq!(
        metal::metal_build_command("out.air"),
        "xcrun -sdk macosx metal -c kernels/metal/q4_expert_gemv.metal \
         kernels/metal/router_forward.metal kernels/metal/fused_ops.metal -o out.air"
    );
    assert_eq!(metal::KERNEL_ROUTER_LOGITS, "router_logits");
}

#[test]
fn zones_divide_the_layers() {
    let cos = bits(&[0.0, 0.0, 0.0, -0.5, 0.2, 0.0, 0.0, 0.0, 0.0]);
    let zone = |l: usize| analysis::classify_zone(l, 10, &cos);
    assert_eq!(zone(1), LayerZone::Sync);
    assert_eq!(zone(2), LayerZone::Unfold);
    assert_eq!(zone(3), LayerZone::IsometricGlobal);
    assert_eq!(zone(6), LayerZone::IsometricLocal);
    assert_eq!(zone(7), LayerZone::Divergent);
    for n in 0..500usize {
        let start = (0.7 * n as f64).ceil() as usize;
        if start > 3 {
            assert_eq!(analysis::classify_zone(start, n, &[]), LayerZone::Divergent);
            assert_eq!(analysis::classify_zone(start - 1, n, &[]), LayerZone::IsometricLocal);
        }
    }
    assert_eq!(analysis::zone_letter(Some(LayerZone::IsometricGlobal)), 'G');
    assert_eq!(analysis::zone_letter(None), '?');
}

#[test]
fn inversions_are_found() {
    let cos = bits(&[0.2, -0.5, 0.01, -0.2, 0.3, 0.9]);
    assert_eq!(analysis::inversion_layers(&cos), vec![1, 3]);
    assert_eq!(analysis::inversion_onset(&cos), Some(1));
    assert_eq!(analysis::realignment_onset(&cos), Some(4));
    assert_eq!(analysis::refresh_layers(&cos), vec![1, 4]);
    assert_eq!(analysis::realignment_onset(&bits(&[0.9, 0.9])), None);
}

#[test]
fn profiles_name_every_layer_once() {
    let n = 8;
    let facts = GeometryFacts {
        steering_cos: bits(&[0.0, 0.0, 0.0, -0.5, 0.2, 0.0, 0.0]),
        intra_cos: vec![Some(0.5f64.to_bits()); n],
        effective_ranks: vec![4.0f64.to_bits(); n],
        layer_norms: vec![1.0f64.to_bits(); n],
        relative_steering: vec![0.1f64.to_bits(); n],
        position_gradient: vec![0; n],
        lyapunov: vec![None; n],
    };
    let means = GeometryMeans {
        mean_intra: 0.5f64.to_bits(),
        intra_std: 0.0f64.to_bits(),
        mean_rank: 4.0f64.to_bits(),
        mean_cos: 0.0f64.to_bits(),
        coupling_strength: 0.2f64.to_bits(),
        ffn_compression_ratio: 0.5f64.to_bits(),
    };
    let shape = ModelShape {
        model_name: "m".to_string(),
        n_layers: n,
        hidden_dim: 4,
        ffn_dim: 8,
        n_heads: 1,
        n_kv_heads: 1,
        head_dim: 4,
        vocab_size: 10,
    };
    let profile = analysis::phase_profile(shape, &facts, &means);
    assert_eq!(profile.phase, Phase::Split2D);
    assert_eq!(profile.layers.len(), n);
    assert_eq!(profile.layers[7].steering_cos, None);
    let told: Vec<(LayerZone, Vec<usize>, u8)> = profile
        .zone_policies
        .iter()
        .map(|p| (p.zone, p.layers.clone(), p.min_precision_bits))
        .collect();
    assert_eq!(
        told,
        vec![
            (LayerZone::Sync, vec![0, 1], 4),
            (LayerZone::Unfold, vec![2], 16),
            (LayerZone::IsometricLocal, vec![4, 5], 5),
            (LayerZone::IsometricGlobal, vec![3], 5),
            (LayerZone::Divergent, vec![6, 7], 8),
        ]
    );
}

#[test]
fn weights_are_looked_up_by_name() {
    assert_eq!(
        analysis::stored_weight_name(3, "up_proj", false, true).unwrap(),
        "model.language_model.layers.3.mlp.up_proj.weight"
    );
    assert_eq!(analysis::weight_names(3, "up_proj").0, "model.layers.3.mlp.up_proj.weight");
    let e = analysis::stored_weight_name(3, "up_proj", false, false).unwrap_err();
    assert_eq!(e.describe(), "Missing tensor: layer 3.mlp.up_proj.weight");
    assert!(analysis::is_small_matrix(1023, 2047));
    assert!(!analysis::is_small_matrix(1024, 1));
}
