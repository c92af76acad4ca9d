use objeta::bench;
use objeta::bench::SanityReportShape;
use objeta::error::{CudaError, CudaErrorKind};
use objeta::quant::{QGemvShape, QuantFormat};

fn args(list: &[&str]) -> Vec<String> {
    list.iter().map(|s| s.to_string()).collect()
}

fn number(value: &serde_json::Value, name: &str) -> usize {
    value.get(name).and_then(|v| v.as_u64()).unwrap() as usize
}

fn read_shape(path: &str, json: &str) -> Result<SanityReportShape, CudaError> {
    let value: serde_json::Value = serde_json::from_str(json).unwrap();
    let shape = SanityReportShape {
        hidden_size: number(&value, "hidden_size"),
        intermediate_size: number(&value, "intermediate_size"),
        top_k: number(&value, "top_k"),
    };
    bench::validate_sanity_shape(path, shape)?;
    Ok(shape)
}

#[test]
fn parse_q4_format_default_and_aliases() {
    assert_eq!(bench::parse_quant_format(&args(&["bench"])).unwrap(), QuantFormat::Q4_0);
    assert_eq!(
        bench::parse_quant_format(&args(&["bench", "--format", "q4"])).unwrap(),
        QuantFormat::Q4_0
    );
    assert_eq!(
        bench::parse_quant_format(&args(&["bench", "--format", "q4_0"])).unwrap(),
        QuantFormat::Q4_0
    );
}

#[test]
fn reject_non_q4_selected_moe_format() {
    let err = bench::parse_quant_format(&args(&["bench", "--format", "q5"])).unwrap_err();
    assert_eq!(err.kind, CudaErrorKind::Unsupported);
    assert!(err.source_message.contains("Q4-only"));
}

#[test]
fn read_sanity_report_shape_extracts_dimensions() {
    let shape = read_shape(
        "sanity_report.json",
        r#"{
            "layout_kind": "explicit_experts",
            "num_layers": 61,
            "num_experts": 256,
            "top_k": 8,
            "hidden_size": 7168,
            "intermediate_size": 2048,
            "warnings": [],
            "compatible_with_objeta_cuda_moe": true
        }"#,
    )
    .unwrap();
    assert_eq!(shape.hidden_size, 7168);
    assert_eq!(shape.intermediate_size, 2048);
    assert_eq!(shape.top_k, 8);
    let b = bench::shape_from_report(shape);
    assert_eq!((b.hidden, b.intermediate, b.out, b.selected_experts), (7168, 2048, 7168, 8));
}

#[test]
fn reject_zero_top_k_in_sanity_report() {
    let err = read_shape(
        "sanity_report.json",
        r#"{ "hidden_size": 4096, "intermediate_size": 11008, "top_k": 0 }"#,
    )
    .unwrap_err();
    assert_eq!(err.kind, CudaErrorKind::InvalidInput);
    assert!(err.source_message.contains("top_k"));
}

#[test]
fn gemv_formats_are_read() {
    assert_eq!(
        bench::parse_gemv_format(&args(&["b", "--format", "iq3"])).unwrap(),
        QuantFormat::IQ3_0
    );
    assert!(bench::parse_gemv_format(&args(&["b", "--format", "q9"])).is_err());
}

#[test]
fn shapes_have_defaults() {
    let b = bench::shape_from_flags(&args(&["b", "--hidden", "64"]));
    assert_eq!(b.hidden, 64);
    let (rows, cols) = bench::gemv_size_from_flags(&args(&["b", "--rows", "8", "--cols", "32"]));
    assert_eq!((rows, cols), (8, 32));
    assert_eq!(bench::gemv_bytes_read(&QGemvShape::q4_0(2, 32)), 2 * 18 + 4 * 32);
}

#[test]
fn benchmarks_select_distinct_experts() {
    let ids = bench::selected_experts(123, 8);
    assert_eq!(ids.len(), 8);
    for i in 0..ids.len() {
        assert!(ids[i] < bench::expert_count(8));
        for j in 0..i {
            assert_ne!(ids[i], ids[j]);
        }
    }
}
