use objeta::aot::layout_pass;
use objeta::aot::layout_pass::LayoutBuilder;
use objeta::aot::types::{
    ExpertLayoutKind, ExpertTensorKind, ModelConfig, ParsedTensorName, SafeTensorsIndex,
    SafeTensorsIndexMetadata,
};

const FILE: &str = "model-00001-of-00002.safetensors";

fn parsed(name: &str) -> ParsedTensorName {
    layout_pass::parse_qwen_tensor_name(name, FILE)
}

fn index_of(names: &[&str]) -> SafeTensorsIndex {
    SafeTensorsIndex {
        weight_map: names.iter().map(|n| (n.to_string(), FILE.to_string())).collect(),
        metadata: SafeTensorsIndexMetadata { total_size: Some(1234) },
    }
}

fn number(value: &serde_json::Value, name: &str) -> Option<u32> {
    value.get(name).and_then(|v| v.as_u64()).map(|v| v as u32)
}

fn config_of(value: &serde_json::Value) -> ModelConfig {
    ModelConfig {
        model_type: value.get("model_type").and_then(|v| v.as_str()).map(|s| s.to_string()),
        architectures: value.get("architectures").and_then(|v| v.as_array()).map(|list| {
            list.iter().filter_map(|v| v.as_str()).map(|s| s.to_string()).collect()
        }),
        num_hidden_layers: number(value, "num_hidden_layers"),
        num_experts: number(value, "num_experts"),
        num_local_experts: number(value, "num_local_experts"),
        vocab_size: number(value, "vocab_size"),
        hidden_size: number(value, "hidden_size"),
        intermediate_size: number(value, "intermediate_size"),
        text_config: value.get("text_config").map(|v| Box::new(config_of(v))),
    }
}

fn config_from(json: &str) -> ModelConfig {
    let value: serde_json::Value = serde_json::from_str(json).unwrap();
    config_of(&value)
}

#[test]
fn parse_gate_up_down_proj_names() {
    let gate = parsed("model.layers.31.mlp.experts.42.gate_proj.weight");
    assert_eq!(gate.layer_idx, Some(31));
    assert_eq!(gate.expert_id, Some(42));
    assert_eq!(gate.tensor_kind, ExpertTensorKind::Gate);

    let up = parsed("model.layers.31.mlp.experts.42.up_proj.weight");
    assert_eq!(up.tensor_kind, ExpertTensorKind::Up);

    let down = parsed("model.layers.31.mlp.experts.42.down_proj.weight");
    assert_eq!(down.tensor_kind, ExpertTensorKind::Down);
}

#[test]
fn parse_fused_gate_up_proj_name() {
    let fused = parsed("model.layers.7.mlp.experts.103.gate_up_proj.weight");
    assert_eq!(fused.layer_idx, Some(7));
    assert_eq!(fused.expert_id, Some(103));
    assert_eq!(fused.tensor_kind, ExpertTensorKind::GateUp);
}

#[test]
fn parse_packed_gate_up_and_down_names() {
    let gate_up = parsed("model.language_model.layers.31.mlp.experts.gate_up_proj");
    assert_eq!(gate_up.layer_idx, Some(31));
    assert_eq!(gate_up.expert_id, None);
    assert!(gate_up.is_packed_experts);
    assert_eq!(gate_up.tensor_kind, ExpertTensorKind::PackedGateUp);

    let down = parsed("model.language_model.layers.31.mlp.experts.down_proj");
    assert_eq!(down.layer_idx, Some(31));
    assert_eq!(down.expert_id, None);
    assert!(down.is_packed_experts);
    assert_eq!(down.tensor_kind, ExpertTensorKind::PackedDown);
}

#[test]
fn router_is_not_treated_as_expert() {
    let router = parsed("model.layers.12.mlp.gate.weight");
    assert_eq!(router.layer_idx, Some(12));
    assert_eq!(router.expert_id, None);
    assert_eq!(router.tensor_kind, ExpertTensorKind::Router);
}

#[test]
fn shared_expert_is_not_normal_routed_expert() {
    let shared = parsed("model.layers.5.mlp.shared_expert.gate_proj.weight");
    assert_eq!(shared.layer_idx, Some(5));
    assert_eq!(shared.expert_id, None);
    assert!(shared.is_shared);
    assert_eq!(shared.tensor_kind, ExpertTensorKind::Gate);
}

#[test]
fn unknown_tensor_falls_back_to_unknown() {
    let unknown = parsed("model.layers.3.some_other_tensor.weight");
    assert_eq!(unknown.layer_idx, Some(3));
    assert_eq!(unknown.tensor_kind, ExpertTensorKind::Unknown);
}

#[test]
fn nested_text_config_fields_are_read() {
    let cfg = config_from(
        r#"{
            "model_type": "qwen3_5_moe",
            "architectures": ["Qwen3_5MoeForConditionalGeneration"],
            "text_config": {
                "num_hidden_layers": 40,
                "num_experts": 256,
                "vocab_size": 248320,
                "hidden_size": 2048
            }
        }"#,
    );
    assert_eq!(cfg.effective_num_hidden_layers(), Some(40));
    assert_eq!(cfg.effective_num_experts(), Some(256));
    assert_eq!(cfg.effective_vocab_size(), Some(248320));
    assert_eq!(cfg.effective_hidden_size(), Some(2048));
    assert_eq!(cfg.effective_intermediate_size(), None);
}

#[test]
fn own_config_fields_come_before_nested_ones() {
    let cfg = config_from(
        r#"{
            "num_hidden_layers": 12,
            "num_local_experts": 8,
            "intermediate_size": 768,
            "text_config": { "num_hidden_layers": 40, "num_experts": 256 }
        }"#,
    );
    assert_eq!(cfg.effective_num_hidden_layers(), Some(12));
    assert_eq!(cfg.effective_num_experts(), Some(8));
    assert_eq!(cfg.effective_intermediate_size(), Some(768));
    assert_eq!(ModelConfig::default().effective_num_experts(), None);
}

#[test]
fn mock_index_generates_expected_expert_layout() {
    let config = ModelConfig {
        model_type: Some("qwen3_moe".to_string()),
        architectures: Some(vec!["Qwen3MoeForCausalLM".to_string()]),
        num_hidden_layers: Some(40),
        num_experts: Some(256),
        num_local_experts: None,
        vocab_size: Some(151936),
        hidden_size: None,
        intermediate_size: None,
        text_config: None,
    };
    let index = index_of(&[
        "model.layers.0.mlp.experts.42.gate_proj.weight",
        "model.layers.0.mlp.experts.42.up_proj.weight",
        "model.layers.0.mlp.experts.42.down_proj.weight",
        "model.layers.0.mlp.gate.weight",
        "model.layers.0.mlp.shared_expert.gate_up_proj.weight",
        "model.layers.0.mlp.shared_expert.down_proj.weight",
        "model.layers.0.unknown_blob.weight",
    ]);

    let layout = layout_pass::run("qwen36", &config, &index).unwrap();
    assert_eq!(layout.num_layers, 40);
    assert_eq!(layout.num_experts, 256);
    assert_eq!(layout.experts.len(), 1);
    assert_eq!(layout.layout_kind, ExpertLayoutKind::PerExpert);
    assert_eq!(layout.logical_routed_expert_count, 40 * 256);
    assert!(layout.packed_expert_layers.is_empty());
    assert_eq!(layout.shared_experts.len(), 1);
    assert_eq!(layout.routers.len(), 1);
    assert_eq!(layout.unknown_tensors.len(), 1);
    let expert = &layout.experts[0];
    assert_eq!(expert.layer, 0);
    assert_eq!(expert.expert, 42);
    assert!(expert.complete);
    assert!(expert.gate.is_some());
    assert!(expert.up.is_some());
    assert!(expert.down.is_some());
}

#[test]
fn packed_layout_generates_logical_expert_count() {
    let config = config_from(
        r#"{
            "model_type": "qwen3_5_moe",
            "architectures": ["Qwen3_5MoeForConditionalGeneration"],
            "text_config": {
                "num_hidden_layers": 40,
                "num_experts": 256,
                "vocab_size": 248320
            }
        }"#,
    );
    let index = index_of(&[
        "model.language_model.layers.31.mlp.experts.gate_up_proj",
        "model.language_model.layers.31.mlp.experts.down_proj",
    ]);
    let layout = layout_pass::run("qwen36", &config, &index).unwrap();
    assert_eq!(layout.layout_kind, ExpertLayoutKind::PackedExperts);
    assert_eq!(layout.logical_routed_expert_count, 10240);
    assert_eq!(layout.packed_expert_layers.len(), 1);
    assert_eq!(layout.experts.len(), 0);
    assert!(layout.warnings.is_empty());
}

#[test]
fn compile_generates_real_expert_layout_from_mock_model_dir() {
    let config = config_from(
        r#"{
            "model_type": "qwen3_moe",
            "architectures": ["Qwen3MoeForCausalLM"],
            "num_hidden_layers": 40,
            "num_local_experts": 256,
            "vocab_size": 151936
        }"#,
    );
    let index = index_of(&[
        "model.layers.3.mlp.experts.7.gate_up_proj.weight",
        "model.layers.3.mlp.experts.7.down_proj.weight",
        "model.layers.3.mlp.gate.weight",
    ]);
    let layout = layout_pass::run("mock", &config, &index).unwrap();
    assert_eq!(layout.experts.len(), 1);
    assert_eq!(layout.experts[0].layer, 3);
    assert_eq!(layout.experts[0].expert, 7);
    assert!(layout.experts[0].gate_up.is_some());
    assert!(layout.experts[0].down.is_some());
    assert_eq!(layout.routers.len(), 1);
}

#[test]
fn experts_are_listed_by_layer_and_number() {
    let mut b = LayoutBuilder::new(4);
    b.see("model.layers.10.mlp.experts.2.up_proj.weight", "b");
    b.see("model.layers.2.mlp.experts.11.up_proj.weight", "a");
    b.see("model.layers.2.mlp.experts.3.up_proj.weight", "a");
    let listed: Vec<(u32, u32)> = b.experts.iter().map(|e| (e.layer, e.expert)).collect();
    assert_eq!(listed, vec![(2, 3), (2, 11), (10, 2)]);
    assert!(b.unknown.is_empty());
}

#[test]
fn unrecognised_tensors_are_kept_with_their_file() {
    let layout = layout_pass::run(
        "m",
        &ModelConfig::default(),
        &index_of(&["lm_head.weight", "model.layers.1.mlp.experts.0.up_proj.weight"]),
    )
    .unwrap();
    assert_eq!(layout.unknown_tensors.len(), 1);
    assert_eq!(layout.unknown_tensors[0].tensor_name, "lm_head.weight");
    assert_eq!(layout.unknown_tensors[0].source_file, FILE);
    assert!(!layout.experts[0].complete);
}
