use objeta::aot::calibration_pass;
use objeta::aot::calibration_pass::{CalibrationCounts, CalibrationTraceEvent};
use objeta::aot::types::ExpertTier;

/// An expert of a trace with its weighted importance.
struct Scored {
    layer: u32,
    expert: u32,
    selected_count: u64,
    avg_gate_weight: f64,
    max_gate_weight: f64,
    importance: f64,
    tier: ExpertTier,
}

fn event_of(line: &str) -> CalibrationTraceEvent {
    let value: serde_json::Value = serde_json::from_str(line).unwrap();
    CalibrationTraceEvent {
        token_id: value.get("token_id").and_then(|v| v.as_u64()),
        layer: value.get("layer").and_then(|v| v.as_u64()).unwrap() as u32,
        selected_experts: value
            .get("selected_experts")
            .and_then(|v| v.as_array())
            .unwrap()
            .iter()
            .map(|v| v.as_u64().unwrap() as u32)
            .collect(),
        selected_weights: value
            .get("selected_weights")
            .and_then(|v| v.as_array())
            .unwrap()
            .iter()
            .map(|v| (v.as_f64().unwrap() as f32).to_bits())
            .collect(),
    }
}

fn events_of(trace: &str) -> Vec<CalibrationTraceEvent> {
    calibration_pass::calibration_lines(trace).iter().map(|(_, line)| event_of(line)).collect()
}

fn score(counts: &CalibrationCounts, w_freq: f64, w_avg: f64, w_max: f64) -> Vec<Scored> {
    let mut scored: Vec<Scored> = counts
        .usage
        .iter()
        .map(|u| {
            let sum: f64 = u.weights.iter().map(|w| f32::from_bits(*w) as f64).sum();
            let max =
                u.weights.iter().map(|w| f32::from_bits(*w) as f64).fold(0.0f64, |a, b| a.max(b));
            Scored {
                layer: u.layer,
                expert: u.expert,
                selected_count: u.selected_count,
                avg_gate_weight: sum / u.selected_count as f64,
                max_gate_weight: max,
                importance: 0.0,
                tier: ExpertTier::Cold,
            }
        })
        .collect();
    let frequency = |s: &Scored| {
        let events = counts.layer_event_counts.iter().find(|c| c.layer == s.layer).unwrap().count;
        s.selected_count as f64 / events as f64
    };
    let importance: Vec<f64> = scored
        .iter()
        .map(|s| {
            let of_layer = || scored.iter().filter(|o| o.layer == s.layer);
            let max_freq = of_layer().map(|o| frequency(o)).fold(1e-12, f64::max);
            let max_avg = of_layer().map(|o| o.avg_gate_weight).fold(1e-12, f64::max);
            let max_max = of_layer().map(|o| o.max_gate_weight).fold(1e-12, f64::max);
            w_freq * (frequency(s) / max_freq)
                + w_avg * (s.avg_gate_weight / max_avg)
                + w_max * (s.max_gate_weight / max_max)
        })
        .collect();
    let layers: Vec<u32> = scored.iter().map(|s| s.layer).collect();
    let bits: Vec<u64> = importance.iter().map(|v| v.to_bits()).collect();
    for r in calibration_pass::assign_tiers(&layers, &bits) {
        scored[r.index].importance = importance[r.index];
        scored[r.index].tier = r.tier;
    }
    scored
}

fn analyse(trace: &str) -> Vec<Scored> {
    score(&calibration_pass::count_trace(&events_of(trace)), 0.70, 0.30, 0.0)
}

#[test]
fn parse_jsonl_calibration_event() {
    let events = events_of(
        r#"{"token_id":0,"layer":31,"selected_experts":[42,7,103],"selected_weights":[0.31,0.22,0.14]}"#,
    );
    assert_eq!(events.len(), 1);
    assert_eq!(events[0].token_id, Some(0));
    assert_eq!(events[0].layer, 31);
    assert_eq!(events[0].selected_experts, vec![42, 7, 103]);
    let weights: Vec<f32> = events[0].selected_weights.iter().map(|w| f32::from_bits(*w)).collect();
    assert_eq!(weights, vec![0.31, 0.22, 0.14]);
}

#[test]
fn aggregate_selected_count_and_avg_gate_weight() {
    let scored = analyse(
        &[
            r#"{"token_id":0,"layer":31,"selected_experts":[42,7],"selected_weights":[0.30,0.20]}"#,
            r#"{"token_id":1,"layer":31,"selected_experts":[42,8],"selected_weights":[0.10,0.05]}"#,
        ]
        .join("\n"),
    );
    let e42 = scored.iter().find(|e| e.layer == 31 && e.expert == 42).unwrap();
    assert_eq!(e42.selected_count, 2);
    assert!((e42.avg_gate_weight - 0.20).abs() < 1e-6);
    assert!((e42.max_gate_weight - 0.30).abs() < 1e-6);
}

#[test]
fn importance_ordering_from_synthetic_trace() {
    let scored = analyse(
        &[
            r#"{"token_id":0,"layer":2,"selected_experts":[1,2],"selected_weights":[0.50,0.10]}"#,
            r#"{"token_id":1,"layer":2,"selected_experts":[1,3],"selected_weights":[0.40,0.20]}"#,
            r#"{"token_id":2,"layer":2,"selected_experts":[2,3],"selected_weights":[0.10,0.05]}"#,
        ]
        .join("\n"),
    );
    let mut layer2: Vec<_> = scored.iter().filter(|e| e.layer == 2).collect();
    layer2.sort_by(|a, b| b.importance.partial_cmp(&a.importance).unwrap());
    assert_eq!(layer2[0].expert, 1);
}

#[test]
fn hot_warm_cold_tier_assignment() {
    let mut lines = Vec::new();
    for expert in 0..10u32 {
        lines.push(format!(
            r#"{{"token_id":{},"layer":5,"selected_experts":[{}],"selected_weights":[{}]}}"#,
            expert,
            expert,
            1.0 - (expert as f32 * 0.05)
        ));
    }
    let scored = analyse(&lines.join("\n"));
    let layer5: Vec<_> = scored.iter().filter(|e| e.layer == 5).collect();
    let hot = layer5.iter().filter(|e| e.tier == ExpertTier::Hot).count();
    let warm = layer5.iter().filter(|e| e.tier == ExpertTier::Warm).count();
    let cold = layer5.iter().filter(|e| e.tier == ExpertTier::Cold).count();
    assert_eq!(hot, 1);
    assert_eq!(warm, 3);
    assert_eq!(cold, 6);
}

#[test]
fn coresidency_pair_counting() {
    let counts = calibration_pass::count_trace(&events_of(
        &[
            r#"{"token_id":0,"layer":9,"selected_experts":[1,2,3],"selected_weights":[0.4,0.3,0.2]}"#,
            r#"{"token_id":1,"layer":9,"selected_experts":[1,2],"selected_weights":[0.5,0.2]}"#,
        ]
        .join("\n"),
    ));
    let pair =
        counts.pairs.iter().find(|p| p.layer == 9 && p.expert_a == 1 && p.expert_b == 2).unwrap();
    assert_eq!(pair.co_count, 2);
    assert_eq!(counts.pairs.len(), 3);
    assert_eq!(counts.total_events, 2);
}

#[test]
fn importance_uses_three_term_formula() {
    let counts = calibration_pass::count_trace(&events_of(
        &[
            r#"{"token_id":0,"layer":5,"selected_experts":[1,2],"selected_weights":[0.50,0.10]}"#,
            r#"{"token_id":1,"layer":5,"selected_experts":[1,3],"selected_weights":[0.40,0.20]}"#,
        ]
        .join("\n"),
    ));
    let scored = score(&counts, 0.50, 0.30, 0.20);
    let e1 = scored.iter().find(|e| e.layer == 5 && e.expert == 1).unwrap();
    assert!((e1.importance - 1.0).abs() < 1e-6, "expected ~1.0, got {}", e1.importance);
}

#[test]
fn compile_with_synthetic_calib_produces_non_placeholder_outputs() {
    let events = events_of(
        &[
            r#"{"token_id":0,"layer":31,"selected_experts":[42,7,103],"selected_weights":[0.31,0.22,0.14]}"#,
            r#"{"token_id":1,"layer":31,"selected_experts":[42,7],"selected_weights":[0.20,0.10]}"#,
        ]
        .join("\n"),
    );
    let counts = calibration_pass::count_trace(&events);
    assert!(!counts.usage.is_empty());
    assert!(!counts.pairs.is_empty());
    assert!(counts.usage.iter().any(|e| e.expert == 42));
    assert!(counts
        .pairs
        .iter()
        .any(|p| p.layer == 31 && p.expert_a == 7 && p.expert_b == 42));
}

#[test]
fn events_without_a_weighted_expert_are_not_counted() {
    let mut event = event_of(r#"{"layer":1,"selected_experts":[3,4],"selected_weights":[0.5]}"#);
    let counts = calibration_pass::count_trace(&[event.clone()]);
    assert_eq!(counts.usage.len(), 1);
    assert_eq!(counts.usage[0].expert, 3);
    assert!(counts.pairs.is_empty());
    event.selected_weights = vec![];
    let none = calibration_pass::count_trace(&[event]);
    assert_eq!(none.total_events, 0);
    assert!(none.layer_event_counts.is_empty());
    assert!(!calibration_pass::keeps_io_event(2, 0));
    assert!(calibration_pass::keeps_io_event(2, 1));
}

#[test]
fn blank_lines_keep_the_numbers_of_the_others() {
    let lines = calibration_pass::calibration_lines("\n  {a} \r\n\n{b}");
    assert_eq!(lines, vec![(2, "{a}".to_string()), (4, "{b}".to_string())]);
    assert_eq!(
        calibration_pass::bad_event("c.jsonl", 4, "expected value"),
        "failed to parse calibration event at c.jsonl:4: expected value"
    );
}

#[test]
fn pairs_are_ordered_by_count_within_a_layer() {
    let counts = calibration_pass::count_trace(&events_of(
        &[
            r#"{"layer":2,"selected_experts":[5,6],"selected_weights":[0.4,0.3]}"#,
            r#"{"layer":1,"selected_experts":[9,8,7],"selected_weights":[0.4,0.3,0.1]}"#,
            r#"{"layer":1,"selected_experts":[8,9],"selected_weights":[0.4,0.3]}"#,
        ]
        .join("\n"),
    ));
    let told: Vec<(u32, u32, u32, u64)> =
        counts.pairs.iter().map(|p| (p.layer, p.expert_a, p.expert_b, p.co_count)).collect();
    assert_eq!(told, vec![(1, 8, 9, 2), (1, 7, 8, 1), (1, 7, 9, 1), (2, 5, 6, 1)]);
}
