use objeta::deepseek;
use objeta::deepseek::{
    BlockFamily, ExpertLayoutJson, ExpertTensorEntry, LayoutJson, ParserMetadata,
    RouterLayoutJson, RouterTensorEntry,
};
use objeta::error::{CudaError, CudaErrorKind};
use objeta::flags;
use objeta::gate;
use objeta::gate::ScoreFunc;
use objeta::options;
use objeta::options::ExecutionFormat;
use objeta::rank;
use objeta::run;
use objeta::run::OutputCounts;

fn metadata(
    num_layers: usize,
    hidden_size: usize,
    intermediate_size: usize,
    num_experts: usize,
    top_k: usize,
    dtype: &str,
    tensors: Vec<ExpertTensorEntry>,
    routers: Vec<RouterTensorEntry>,
) -> ParserMetadata {
    ParserMetadata {
        layout: LayoutJson {
            num_layers,
            hidden_size,
            intermediate_size,
            num_experts,
            top_k,
            dtype: dtype.to_string(),
        },
        expert_layout: ExpertLayoutJson { layout_kind: "explicit_experts".to_string(), tensors },
        router_layout: RouterLayoutJson { routers },
    }
}

fn tensor(
    name: &str,
    expert: usize,
    kind: &str,
    shape: Vec<usize>,
    dtype: &str,
) -> ExpertTensorEntry {
    let cells: usize = shape.iter().product();
    ExpertTensorEntry {
        name: name.to_string(),
        layer_id: Some(0),
        expert_id: Some(Some(expert)),
        tensor_kind: kind.to_string(),
        shape,
        dtype: dtype.to_string(),
        byte_length: cells * if dtype == "I8" { 1 } else { 4 },
        source_file: "model.safetensors".to_string(),
        storage_dtype: None,
        logical_dtype: None,
        scale_tensor_name: None,
        scale_dtype: None,
        logical_shape: None,
        block_size: None,
        packed_values_per_byte: None,
    }
}

fn fp4(mut t: ExpertTensorEntry, scale: Option<&str>, logical: Vec<usize>) -> ExpertTensorEntry {
    t.storage_dtype = Some("I8".to_string());
    t.logical_dtype = Some("FP4".to_string());
    if let Some(s) = scale {
        t.scale_tensor_name = Some(s.to_string());
        t.scale_dtype = Some("F8_E8M0".to_string());
        t.logical_shape = Some(logical);
        t.block_size = Some(32);
    }
    t
}

fn router(name: &str, shape: Vec<usize>, dtype: &str) -> RouterTensorEntry {
    RouterTensorEntry {
        name: name.to_string(),
        layer_id: Some(0),
        shape,
        dtype: dtype.to_string(),
    }
}

fn logits_of(weights: &[f32], hidden: &[f32], num_experts: usize, hidden_size: usize) -> Vec<f32> {
    (0..num_experts)
        .map(|e| {
            let mut sum = 0.0f32;
            for h in 0..hidden_size {
                sum += weights[e * hidden_size + h] * hidden[h];
            }
            sum
        })
        .collect()
}

fn softmax(logits: &[f32]) -> Vec<f32> {
    let max = logits.iter().cloned().fold(f32::NEG_INFINITY, f32::max);
    let exps: Vec<f32> = logits.iter().map(|l| (l - max).exp()).collect();
    let sum: f32 = exps.iter().sum();
    exps.iter().map(|e| e / sum).collect()
}

fn patterns(scores: &[f32]) -> Vec<u32> {
    scores.iter().map(|s| s.to_bits()).collect()
}

/// Gating in floating point: the selected experts and their weights.
fn gate_ref(
    gate_weights: &[f32],
    bias: Option<&[f32]>,
    table: Option<&[i64]>,
    hidden: &[f32],
    input_id: Option<usize>,
    num_experts: usize,
    hidden_size: usize,
    top_k: usize,
    func: ScoreFunc,
    route_scale: f32,
) -> Result<(Vec<usize>, Vec<f32>), CudaError> {
    let logits = logits_of(gate_weights, hidden, num_experts, hidden_size);
    let scores: Vec<f32> = match func {
        ScoreFunc::Softmax => softmax(&logits),
        ScoreFunc::Sigmoid => logits.iter().map(|v| 1.0 / (1.0 + (-v).exp())).collect(),
        ScoreFunc::SqrtSoftplus => logits
            .iter()
            .map(|v| {
                let sp = if *v > 20.0 { *v } else { v.exp().ln_1p() };
                sp.sqrt()
            })
            .collect(),
    };
    let mut selection = scores.clone();
    if let Some(b) = bias {
        for e in 0..num_experts {
            selection[e] += b[e];
        }
    }
    let ids = gate::select_experts(table, input_id, &patterns(&selection), top_k)?;
    let mut weights: Vec<f32> = ids.iter().map(|&e| scores[e]).collect();
    if func.normalizes() {
        let sum: f32 = weights.iter().sum();
        if sum > 0.0 {
            weights.iter_mut().for_each(|w| *w /= sum);
        }
    }
    weights.iter_mut().for_each(|w| *w *= route_scale);
    Ok((ids, weights))
}

/// A plain router in floating point: the weights are the softmax scores.
fn cpu_router(
    weights: &[f32],
    hidden: &[f32],
    num_experts: usize,
    hidden_size: usize,
    top_k: usize,
) -> Result<(Vec<usize>, Vec<f32>), CudaError> {
    gate::validate_router_len(weights.len(), num_experts, hidden_size)?;
    let scores = softmax(&logits_of(weights, hidden, num_experts, hidden_size));
    let ids = gate::select_experts(None, None, &patterns(&scores), top_k)?;
    let gathered = ids.iter().map(|&e| scores[e]).collect();
    Ok((ids, gathered))
}

fn validate_weights(weights: &[f32], top_k: usize) -> Result<(), CudaError> {
    let sum: f32 = weights.iter().sum();
    gate::validate_manual_expert_weights(
        weights.len(),
        top_k,
        (sum - 1.0).abs().to_bits(),
        &format!("{:.6}", sum),
    )
}

#[test]
fn test_sqrtsoftplus_scores() {
    let gate_weights = vec![0.0f32; 256 * 4096];
    let hidden = vec![0.1f32; 4096];
    let (ids, weights) = gate_ref(
        &gate_weights,
        None,
        None,
        &hidden,
        None,
        256,
        4096,
        6,
        ScoreFunc::SqrtSoftplus,
        1.5,
    )
    .unwrap();
    assert_eq!(ids.len(), 6);
    assert_eq!(weights.len(), 6);
    let sum: f32 = weights.iter().sum();
    assert!((sum - 1.5).abs() < 1e-4, "weights sum {} != 1.5", sum);
    assert_eq!(ids, vec![0, 1, 2, 3, 4, 5]);
}

#[test]
fn test_bias_affects_selection_not_weights() {
    let mut gate_weights = vec![0.0f32; 256 * 4096];
    gate_weights[0] = 1.0;
    let hidden = vec![1.0f32; 4096];
    let bias = vec![0.0f32; 256];
    let (ids, _weights) = gate_ref(
        &gate_weights,
        Some(&bias),
        None,
        &hidden,
        None,
        256,
        4096,
        6,
        ScoreFunc::SqrtSoftplus,
        1.5,
    )
    .unwrap();
    assert!(ids.contains(&0));
}

#[test]
fn test_hash_layer_tid2eid() {
    let gate_weights = vec![0.0f32; 256 * 4096];
    let hidden = vec![0.1f32; 4096];
    let table: Vec<i64> = (0..(129280 * 6)).map(|x| (x % 256) as i64).collect();
    let (ids, weights) = gate_ref(
        &gate_weights,
        None,
        Some(&table),
        &hidden,
        Some(42),
        256,
        4096,
        6,
        ScoreFunc::SqrtSoftplus,
        1.5,
    )
    .unwrap();
    assert_eq!(ids.len(), 6);
    let expected: Vec<usize> = (0..6).map(|k| (table[42 * 6 + k]) as usize).collect();
    assert_eq!(ids, expected);
    let sum: f32 = weights.iter().sum();
    assert!((sum - 1.5).abs() < 1e-4, "weights sum {} != 1.5", sum);
}

#[test]
fn test_hash_layer_weights_from_hidden() {
    let mut gate_weights = vec![0.0f32; 256 * 4096];
    for h in 0..4096 {
        gate_weights[h] = 0.5;
    }
    for h in 0..4096 {
        gate_weights[100 * 4096 + h] = 2.0;
    }
    let table: Vec<i64> = (0..(129280 * 6)).map(|x| (x % 256) as i64).collect();

    let hidden_a = vec![1.0f32; 4096];
    let (ids_a, weights_a) = gate_ref(
        &gate_weights,
        None,
        Some(&table),
        &hidden_a,
        Some(0),
        256,
        4096,
        6,
        ScoreFunc::SqrtSoftplus,
        1.5,
    )
    .unwrap();
    assert_eq!(ids_a, vec![0, 1, 2, 3, 4, 5]);

    let hidden_b = vec![-1.0f32; 4096];
    let (ids_b, weights_b) = gate_ref(
        &gate_weights,
        None,
        Some(&table),
        &hidden_b,
        Some(0),
        256,
        4096,
        6,
        ScoreFunc::SqrtSoftplus,
        1.5,
    )
    .unwrap();
    assert_eq!(ids_b, ids_a);
    assert!(weights_a != weights_b, "Weights should differ per hidden state");
}

#[test]
fn test_route_scale_exact() {
    let gate_weights = vec![0.0f32; 256 * 4096];
    let hidden = vec![0.42f32; 4096];
    let (_, weights) = gate_ref(
        &gate_weights,
        None,
        None,
        &hidden,
        None,
        256,
        4096,
        6,
        ScoreFunc::SqrtSoftplus,
        1.5,
    )
    .unwrap();
    let sum: f32 = weights.iter().sum();
    assert!((sum - 1.5).abs() < 1e-4, "weights sum {} != 1.5", sum);
}

#[test]
fn test_non_hash_top_k_selection() {
    let mut gate_weights = vec![0.0f32; 256 * 4096];
    for h in 0..4096 {
        gate_weights[10 * 4096 + h] = 3.0;
        gate_weights[20 * 4096 + h] = 2.0;
        gate_weights[30 * 4096 + h] = 1.0;
    }
    let hidden = vec![1.0f32; 4096];
    let (ids, _) = gate_ref(
        &gate_weights,
        None,
        None,
        &hidden,
        None,
        256,
        4096,
        6,
        ScoreFunc::SqrtSoftplus,
        1.5,
    )
    .unwrap();
    assert_eq!(ids[0], 10);
    assert_eq!(ids[1], 20);
    assert_eq!(ids[2], 30);
}

#[test]
fn gate_weights_sum_to_the_scale() {
    for func in [ScoreFunc::Softmax, ScoreFunc::Sigmoid, ScoreFunc::SqrtSoftplus] {
        let (ids, weights) =
            gate_ref(&[0.0, 0.0], None, None, &[1.0], None, 2, 1, 1, func, 1.0).unwrap();
        assert_eq!(ids, vec![0]);
        assert_eq!(weights, vec![1.0]);
        assert!(func.normalizes());
    }
    let (ids, weights) = cpu_router(&[0.0, 0.0], &[1.0], 2, 1, 1).unwrap();
    assert_eq!(ids, vec![0]);
    assert_eq!(weights, vec![0.5]);
}

#[test]
fn tokens_outside_the_table_are_refused() {
    let table: Vec<i64> = vec![0, 1, 2, 3];
    let scores = vec![0u32; 4];
    let none = gate::select_experts(Some(&table), None, &scores, 2).unwrap_err();
    assert!(none.source_message.contains("input_id is required"));
    let far = gate::select_experts(Some(&table), Some(2), &scores, 2).unwrap_err();
    assert!(far.source_message.contains("input_id 2 out of range for tid2eid (vocab=2)"));
    assert_eq!(gate::select_experts(Some(&table), Some(1), &scores, 2).unwrap(), vec![2, 3]);
    assert!(gate::select_experts(Some(&table), None, &scores, 0).is_err());
    let partial: Vec<i64> = vec![0, 1, 9];
    assert!(gate::select_experts(Some(&partial), Some(1), &scores, 2).is_err());
    assert_eq!(gate::decode_table(&[5, 0, 0, 0, 0, 0, 0, 0, 255, 255, 255, 255, 255, 255, 255, 255]), vec![5, -1]);
    assert!(gate::is_hash_layer(2));
    assert!(!gate::is_hash_layer(3));
}

#[test]
fn test_missing_router_fails_clearly() {
    let meta = metadata(1, 64, 32, 4, 2, "float32", vec![], vec![]);
    let err = deepseek::find_router_tensor(&meta, 0, BlockFamily::Decoder).unwrap_err();
    assert_eq!(err.kind, CudaErrorKind::InvalidInput);
    assert!(err.source_message.contains("no router tensor"));
}

#[test]
fn test_missing_expert_tensor_fails_clearly() {
    let hidden = 64;
    let intermediate = 32;
    let meta = metadata(
        1,
        hidden,
        intermediate,
        4,
        2,
        "float32",
        vec![
            tensor(
                "model.layers.0.mlp.experts.0.gate_proj.weight",
                0,
                "gate",
                vec![intermediate, hidden],
                "F32",
            ),
            tensor(
                "model.layers.0.mlp.experts.0.up_proj.weight",
                0,
                "up",
                vec![intermediate, hidden],
                "F32",
            ),
            tensor(
                "model.layers.0.mlp.experts.0.down_proj.weight",
                0,
                "down",
                vec![hidden, intermediate],
                "F32",
            ),
            tensor(
                "model.layers.0.mlp.experts.1.gate_proj.weight",
                1,
                "gate",
                vec![intermediate, hidden],
                "F32",
            ),
        ],
        vec![router("model.layers.0.mlp.gate.weight", vec![4, hidden], "F32")],
    );

    let t0 = deepseek::find_expert_tensors(&meta, 0, 0, BlockFamily::Decoder).unwrap();
    assert!(t0.gate_name.contains("experts.0"));
    assert!(t0.up_name.contains("experts.0"));
    assert!(t0.down_name.contains("experts.0"));

    let err = deepseek::find_expert_tensors(&meta, 0, 1, BlockFamily::Decoder).unwrap_err();
    assert_eq!(err.kind, CudaErrorKind::InvalidInput);
    assert!(err.source_message.contains("missing tensors"));

    let err = deepseek::find_expert_tensors(&meta, 0, 2, BlockFamily::Decoder).unwrap_err();
    assert_eq!(err.kind, CudaErrorKind::InvalidInput);
    assert!(err.source_message.contains("missing tensors"));
}

#[test]
fn test_packed_experts_refuses_to_run() {
    let mut meta = metadata(
        1,
        64,
        32,
        4,
        2,
        "float32",
        vec![],
        vec![router("model.layers.0.mlp.gate.weight", vec![4, 64], "F32")],
    );
    meta.expert_layout.layout_kind = "packed_experts".to_string();
    let mut packed = tensor(
        "model.layers.0.mlp.experts.gate_proj.weight",
        0,
        "gate",
        vec![4, 32, 64],
        "F32",
    );
    packed.expert_id = None;
    meta.expert_layout.tensors.push(packed);

    let err = deepseek::require_explicit_experts(&meta).unwrap_err();
    assert_eq!(err.kind, CudaErrorKind::Unsupported);
    assert!(err.source_message.contains("packed_experts"));
    assert!(err.source_message.contains("refusing to guess offsets"));
}

#[test]
fn test_unsupported_dtype_fails() {
    assert!(gate::validate_dtype("F32").is_ok());
    assert!(gate::validate_dtype("F16").is_ok());
    assert!(gate::validate_dtype("BF16").is_ok());
    assert!(gate::validate_dtype("float32").is_ok());
    assert!(gate::validate_dtype("bfloat16").is_ok());

    let err = gate::validate_dtype("INT8").unwrap_err();
    assert_eq!(err.kind, CudaErrorKind::Unsupported);
    assert!(err.source_message.contains("INT8"));
}

#[test]
fn test_router_shape_mismatch_fails() {
    let meta = metadata(
        1,
        64,
        32,
        4,
        2,
        "float32",
        vec![],
        vec![router("model.layers.0.mlp.gate.weight", vec![8, 64], "F32")],
    );
    let err = deepseek::find_router_tensor(&meta, 0, BlockFamily::Decoder).unwrap_err();
    assert_eq!(err.kind, CudaErrorKind::InvalidInput);
    assert!(err.source_message.contains("expert dim"));
}

#[test]
fn test_layer_out_of_range_fails() {
    let meta = metadata(2, 64, 32, 4, 2, "float32", vec![], vec![]);
    assert!(deepseek::validate_layer(&meta, 0).is_ok());
    assert!(deepseek::validate_layer(&meta, 1).is_ok());

    let err = deepseek::validate_layer(&meta, 2).unwrap_err();
    assert_eq!(err.kind, CudaErrorKind::InvalidInput);
    assert!(err.source_message.contains("out of range"));
}

#[test]
fn test_cpu_router_top_k_selection() {
    let hidden = 4;
    let num_experts = 4;
    let top_k = 2;
    let mut weights = vec![0.0f32; num_experts * hidden];
    for h in 0..hidden {
        weights[hidden + h] = 1.0;
    }
    for h in 0..hidden {
        weights[3 * hidden + h] = 2.0;
    }
    let hidden_vec = vec![0.5f32; hidden];
    let (ids, weights) = cpu_router(&weights, &hidden_vec, num_experts, hidden, top_k).unwrap();
    assert_eq!(ids.len(), 2);
    assert_eq!(ids[0], 3);
    assert_eq!(ids[1], 1);
    assert!(weights[0] > weights[1]);
    assert!(cpu_router(&[0.0; 3], &hidden_vec, num_experts, hidden, top_k).is_err());
}

#[test]
fn test_manual_expert_ids_skip_router() {
    let ids = flags::parse_comma_separated_usize("0,1,2,3,4,5").unwrap();
    assert_eq!(ids, vec![0, 1, 2, 3, 4, 5]);

    let ids = flags::parse_comma_separated_usize("42").unwrap();
    assert_eq!(ids, vec![42]);

    let ids = flags::parse_comma_separated_usize(" 0 , 1 , 2 ").unwrap();
    assert_eq!(ids, vec![0, 1, 2]);
}

#[test]
fn test_uniform_expert_weights_sum_to_one() {
    let top_k = 6;
    let w = 1.0 / top_k as f32;
    let weights = vec![w; top_k];
    assert!((weights.iter().sum::<f32>() - 1.0).abs() < 1e-6);
    assert!(validate_weights(&weights, top_k).is_ok());
}

#[test]
fn test_explicit_expert_weights_validation() {
    let weights = vec![0.166, 0.166, 0.166, 0.166, 0.166, 0.170];
    assert!(validate_weights(&weights, 6).is_ok());

    let err = validate_weights(&[0.5, 0.5], 6).unwrap_err();
    assert!(err.source_message.contains("expected 6"));

    let err = validate_weights(&[0.1, 0.1, 0.1, 0.1, 0.1, 0.1], 6).unwrap_err();
    assert!(err.source_message.contains("sum to"));
}

#[test]
fn test_invalid_expert_id_fails() {
    assert!(gate::validate_manual_expert_ids(&[0, 1, 2, 3, 4, 5], 256, 6).is_ok());

    let err = gate::validate_manual_expert_ids(&[0, 1, 256], 256, 3).unwrap_err();
    assert!(err.source_message.contains("out of range"));

    let err = gate::validate_manual_expert_ids(&[0, 1], 256, 6).unwrap_err();
    assert!(err.source_message.contains("expected 6"));

    let err = gate::validate_manual_expert_ids(&[], 256, 6).unwrap_err();
    assert!(err.source_message.contains("must not be empty"));
}

#[test]
fn test_missing_scale_tensor_fails() {
    let hidden = 64;
    let intermediate = 32;
    let meta = metadata(
        1,
        hidden,
        intermediate,
        4,
        2,
        "bfloat16",
        vec![
            fp4(
                tensor(
                    "layers.0.ffn.experts.0.w1.weight",
                    0,
                    "gate",
                    vec![intermediate, hidden / 2],
                    "I8",
                ),
                None,
                vec![],
            ),
            fp4(
                tensor(
                    "layers.0.ffn.experts.0.w2.weight",
                    0,
                    "up",
                    vec![intermediate, hidden / 2],
                    "I8",
                ),
                Some("layers.0.ffn.experts.0.w2.scale"),
                vec![intermediate, hidden],
            ),
            fp4(
                tensor(
                    "layers.0.ffn.experts.0.w3.weight",
                    0,
                    "down",
                    vec![hidden, intermediate / 2],
                    "I8",
                ),
                Some("layers.0.ffn.experts.0.w3.scale"),
                vec![hidden, intermediate],
            ),
        ],
        vec![router("layers.0.ffn.gate.weight", vec![4, hidden], "BF16")],
    );
    let err = deepseek::find_fp4_expert_tensors(&meta, 0, 0, BlockFamily::Decoder).unwrap_err();
    assert!(err.source_message.contains("scale_tensor_name"));
    assert!(err.source_message.contains("not FP4"));
}

#[test]
fn fp4_tensors_are_found_with_their_scales() {
    let name = |w: &str| format!("layers.0.ffn.experts.1.{}.weight", w);
    let scale = |w: &str| format!("layers.0.ffn.experts.1.{}.scale", w);
    let meta = metadata(
        1,
        64,
        32,
        4,
        2,
        "bfloat16",
        vec![
            fp4(tensor(&name("w1"), 1, "gate", vec![32, 32], "I8"), Some(&scale("w1")), vec![32, 64]),
            fp4(tensor(&name("w2"), 1, "up", vec![32, 32], "I8"), Some(&scale("w2")), vec![32, 64]),
            fp4(tensor(&name("w3"), 1, "down", vec![64, 16], "I8"), Some(&scale("w3")), vec![64, 32]),
        ],
        vec![],
    );
    let set = deepseek::find_fp4_expert_tensors(&meta, 0, 1, BlockFamily::Decoder).unwrap();
    assert_eq!(set.gate_name, name("w1"));
    assert_eq!(set.up_scale_name, scale("w2"));
    assert_eq!(set.down_logical_shape, vec![64, 32]);
    assert_eq!(set.gate_block_size, 32);
    assert_eq!(run::physical_shape(&set.gate_logical_shape), (32, 32));
    assert!(run::first_expert_uses_fp4(&meta, 0, BlockFamily::Decoder, &[1]));
    assert!(!run::first_expert_uses_fp4(&meta, 0, BlockFamily::Decoder, &[0]));
    assert!(run::check_model(&meta, 0).is_ok());
}

#[test]
fn test_block_family_distinction() {
    let meta = metadata(
        1,
        64,
        32,
        2,
        1,
        "float32",
        vec![],
        vec![
            router("layers.0.ffn.gate.weight", vec![2, 64], "F32"),
            router("mtp.0.ffn.gate.weight", vec![2, 64], "F32"),
        ],
    );
    let dec_router = deepseek::find_router_tensor(&meta, 0, BlockFamily::Decoder).unwrap();
    assert_eq!(dec_router.name, "layers.0.ffn.gate.weight");
    let mtp_router = deepseek::find_router_tensor(&meta, 0, BlockFamily::Mtp).unwrap();
    assert_eq!(mtp_router.name, "mtp.0.ffn.gate.weight");
}

#[test]
fn test_explicit_single_layer_works() {
    let hidden = 64;
    let intermediate = 32;
    let num_experts = 4;
    let mut tensors = Vec::new();
    for e in 0..num_experts {
        for (part, kind, shape) in [
            ("gate_proj", "gate", vec![intermediate, hidden]),
            ("up_proj", "up", vec![intermediate, hidden]),
            ("down_proj", "down", vec![hidden, intermediate]),
        ] {
            let name = format!("model.layers.0.mlp.experts.{}.{}.weight", e, part);
            tensors.push(tensor(&name, e, kind, shape, "F32"));
        }
    }
    let meta = metadata(
        1,
        hidden,
        intermediate,
        num_experts,
        2,
        "float32",
        tensors,
        vec![router("model.layers.0.mlp.gate.weight", vec![num_experts, hidden], "F32")],
    );
    assert!(run::check_model(&meta, 0).is_ok());
    let found = deepseek::find_router_tensor(&meta, 0, BlockFamily::Decoder).unwrap();
    assert!(gate::validate_dtype(&found.dtype).is_ok());
    for e in 0..num_experts {
        let set = deepseek::find_expert_tensors(&meta, 0, e, BlockFamily::Decoder).unwrap();
        assert_eq!(set.gate_name, format!("model.layers.0.mlp.experts.{}.gate_proj.weight", e));
        assert_eq!(set.up_name, format!("model.layers.0.mlp.experts.{}.up_proj.weight", e));
        assert_eq!(set.down_name, format!("model.layers.0.mlp.experts.{}.down_proj.weight", e));
    }
}

fn strings(list: &[&str]) -> Vec<String> {
    list.iter().map(|s| s.to_string()).collect()
}

#[test]
fn run_options_are_read() {
    let args = strings(&[
        "m9",
        "--parse-dir",
        "p",
        "--model-dir",
        "m",
        "--layer",
        "3",
        "--expert-ids",
        "1,2",
    ]);
    let o = options::parse_options(&args, &args).unwrap();
    assert_eq!(o.parse_dir, "p");
    assert_eq!(o.layer, 3);
    assert_eq!(o.manual_ids, Some(vec![1, 2]));
    assert!(o.manual_mode());
    assert!(options::parse_options(&strings(&["m9"]), &strings(&["m9"])).is_err());
}

#[test]
fn formats_are_resolved() {
    assert_eq!(run::resolve_format(None, true).unwrap(), ExecutionFormat::NativeFp4);
    assert_eq!(run::resolve_format(None, false).unwrap(), ExecutionFormat::Q4Transcode);
    assert!(run::resolve_format(Some(ExecutionFormat::NativeFp4), false).is_err());
}

#[test]
fn ranges_of_seeds_are_read() {
    assert_eq!(flags::parse_seed_range("2: 5").unwrap(), vec![2, 3, 4, 5]);
    assert_eq!(flags::parse_seed_range("5:2").unwrap(), Vec::<usize>::new());
    assert_eq!(flags::parse_seed_range("7,9").unwrap(), vec![7, 9]);
    assert_eq!(
        flags::parse_seed_range("x:5").unwrap_err().source_message,
        "invalid lo: 'x'"
    );
    assert!(flags::parse_seed_range("1:y").is_err());
    assert!(flags::parse_comma_separated_usize("1,x").is_err());
    let args = strings(&["a", "--n", "7", "--flag"]);
    assert_eq!(flags::usize_flag(&args, "--n"), Some(7));
    assert_eq!(flags::usize_flag_or(&args, "--m", 9), 9);
    assert!(flags::has_flag(&args, "--flag"));
    assert_eq!(flags::parse_flag(&args, "--none"), None);
}

#[test]
fn selections_rank_scores() {
    let bits = |v: &[f32]| v.iter().map(|x| x.to_bits()).collect::<Vec<u32>>();
    assert_eq!(rank::top_k_ids(&bits(&[0.5, 2.0, -1.0, 2.0]), 3), vec![1, 3, 0]);
    assert_eq!(
        rank::margin_pair(&bits(&[0.5, 2.0, -1.0]), 1),
        Some((2.0f32.to_bits(), 0.5f32.to_bits()))
    );
    assert_eq!(rank::margin_pair(&bits(&[0.5]), 1), None);
    let wide: Vec<u64> = [3.0f64, -1.0, 2.0].iter().map(|x| x.to_bits()).collect();
    assert_eq!(rank::ascending_order(&wide), vec![1, 2, 0]);
    assert_eq!(rank::order_of(&[5, 1, 5]), vec![1, 0, 2]);
}

#[test]
fn outputs_are_counted() {
    let bits = [1.0f32.to_bits(), f32::NAN.to_bits(), f32::INFINITY.to_bits()];
    assert_eq!(run::count_nan_inf(&bits), (1, 1));
    let clean = OutputCounts {
        routed_nan: 0,
        routed_inf: 0,
        shared_nan: 0,
        shared_inf: 0,
        full_nan: 0,
        full_inf: 0,
    };
    assert!(clean.all_finite());
    assert!(run::official_parity(&clean, 1.0f32.to_bits()));
    assert!(!run::official_parity(&clean, 0.5f32.to_bits()));
    let dirty = OutputCounts { full_nan: 1, ..clean };
    assert!(!dirty.all_finite());
    assert!(!run::official_parity(&dirty, 1.0f32.to_bits()));
    assert!(run::decoded_parity(0.995f32.to_bits()));
}

#[test]
fn tensor_names_follow_the_family() {
    let (weight, bias) = run::gate_tensor_names(5, BlockFamily::Decoder);
    assert_eq!(weight, "layers.5.ffn.gate.weight");
    assert_eq!(bias, "layers.5.ffn.gate.bias");
    let (_, table) = run::gate_tensor_names(0, BlockFamily::Mtp);
    assert_eq!(table, "mtp.0.ffn.gate.tid2eid");
    assert!(deepseek::matches_block_family("mtp.0.ffn.gate.weight", BlockFamily::Mtp));
    assert!(!deepseek::matches_block_family("mtp.0.ffn.gate.weight", BlockFamily::Decoder));
}
