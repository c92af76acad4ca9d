use objeta::error::{CudaError, CudaErrorKind};
use objeta::gate;
use objeta::ieee;
use objeta::packing;
use objeta::quant;
use objeta::quant::{Fp8Fp4Sizes, QGemvShape, QuantFormat};

struct Numerics {
    cosine_similarity: f32,
    relative_l2_error: f32,
}

fn seeded_f32s(len: usize, seed: u64) -> Vec<f32> {
    gate::seeded_bits(len, seed)
        .iter()
        .map(|b| (*b as f32) / (u32::MAX as f32) * 2.0 - 1.0)
        .collect()
}

fn largest(block: &[f32]) -> f32 {
    block.iter().fold(0.0f32, |m, v| m.max(v.abs()))
}

fn integer_block(block: &[f32], steps: f32, half: f32) -> (u16, Vec<u8>) {
    let amax = largest(block);
    let scale = if amax > 0.0 { amax / steps } else { 1.0e-10 };
    let codes = block
        .iter()
        .map(|v| ((v / scale) + half).round().clamp(0.0, 2.0 * half - 1.0) as u8)
        .collect();
    (ieee::f32_to_f16_bits(scale.to_bits()), codes)
}

fn fp4_code(v: f32, scale: f32) -> u8 {
    let scaled = v / scale;
    let mut best = 0u8;
    let mut least = f32::INFINITY;
    for code in 0..16u8 {
        let diff = (scaled - f32::from_bits(packing::fp4_value(code))).abs();
        if diff < least {
            least = diff;
            best = code;
        }
    }
    best
}

fn fp4_block(block: &[f32]) -> (u16, Vec<u8>) {
    let amax = largest(block);
    let raw = if amax > 0.0 && amax.is_finite() {
        let k = (amax / 6.0).log2().ceil() as i32;
        (k + 127).clamp(0, 255) as u8
    } else {
        0
    };
    let scale = f32::from_bits(ieee::decode_f8_e8m0(raw));
    (raw as u16, block.iter().map(|v| fp4_code(*v, scale)).collect())
}

fn block_codes(format: QuantFormat, block: &[f32]) -> (u16, Vec<u8>) {
    match format {
        QuantFormat::Q4_0 => integer_block(block, 7.0, 8.0),
        QuantFormat::Q5_0 => integer_block(block, 15.0, 16.0),
        QuantFormat::IQ3_0 => integer_block(block, 4.0, 4.0),
        QuantFormat::DeepSeekFp4E2M1 => fp4_block(block),
    }
}

fn quantize(format: QuantFormat, matrix: &[f32], shape: QGemvShape) -> Result<Vec<u8>, CudaError> {
    let mut scales = Vec::new();
    let mut codes = Vec::new();
    for block in matrix.chunks(32) {
        let (scale, block_codes) = block_codes(format, block);
        scales.push(scale);
        codes.extend(block_codes);
    }
    packing::pack_matrix(format, &scales, &codes, shape)
}

fn weight(format: QuantFormat, code: u8, scale: u16) -> f32 {
    match packing::level(format, code) {
        Some(l) => l as f32 * f32::from_bits(ieee::f16_to_f32_bits(scale)),
        None => {
            f32::from_bits(packing::fp4_value(code))
                * f32::from_bits(ieee::decode_f8_e8m0(scale as u8))
        }
    }
}

fn gemv(
    format: QuantFormat,
    qweights: &[u8],
    x: &[f32],
    shape: QGemvShape,
) -> Result<Vec<f32>, CudaError> {
    quant::validate_quant_inputs(format, qweights.len(), x.len(), shape)?;
    Ok((0..shape.rows)
        .map(|row| {
            let mut sum = 0.0f32;
            for col in 0..shape.cols {
                let (code, scale) = packing::weight_at(format, qweights, shape, row, col);
                sum += weight(format, code, scale) * x[col];
            }
            sum
        })
        .collect())
}

fn dense_gemv(matrix: &[f32], x: &[f32], shape: QGemvShape) -> Result<Vec<f32>, CudaError> {
    quant::validate_dense_gemv(matrix.len(), x.len(), shape)?;
    Ok(matrix
        .chunks(shape.cols)
        .map(|row| row.iter().zip(x.iter()).map(|(w, xv)| w * xv).sum())
        .collect())
}

fn compare_outputs(reference: &[f32], actual: &[f32]) -> Result<Numerics, CudaError> {
    quant::validate_compared_lengths(reference.len(), actual.len())?;
    let mut dot = 0.0f64;
    let mut ref_norm = 0.0f64;
    let mut act_norm = 0.0f64;
    let mut sq_err = 0.0f64;
    for (&r, &a) in reference.iter().zip(actual.iter()) {
        dot += (r as f64) * (a as f64);
        ref_norm += (r as f64) * (r as f64);
        act_norm += (a as f64) * (a as f64);
        let diff = a - r;
        sq_err += (diff as f64) * (diff as f64);
    }
    Ok(Numerics {
        cosine_similarity: (dot / (ref_norm.sqrt() * act_norm.sqrt())) as f32,
        relative_l2_error: (sq_err.sqrt() / ref_norm.sqrt()) as f32,
    })
}

fn roundtrip(format: QuantFormat, rows: usize, cols: usize, seed: u64, x_seed: u64) -> f32 {
    let shape = QGemvShape::new(format, rows, cols);
    let matrix = seeded_f32s(shape.rows * shape.cols, seed);
    let x = seeded_f32s(shape.cols, x_seed);
    let qweights = quantize(format, &matrix, shape).unwrap();
    let reference = gemv(format, &qweights, &x, shape).unwrap();
    let dense_reference = dense_gemv(&matrix, &x, shape).unwrap();
    compare_outputs(&dense_reference, &reference).unwrap().cosine_similarity
}

#[test]
fn q4_rejects_non_multiple_cols() {
    let shape = QGemvShape::q4_0(4, 33);
    let matrix = vec![0.0f32; shape.rows * shape.cols];
    let err = quantize(QuantFormat::Q4_0, &matrix, shape).unwrap_err();
    assert!(err.source_message.contains("multiple of block_size"));
}

#[test]
fn q4_cpu_reference_roundtrip_small() {
    assert!(roundtrip(QuantFormat::Q4_0, 16, 32, 42, 7) > 0.995);
}

#[test]
fn q5_cpu_reference_roundtrip_small() {
    assert!(roundtrip(QuantFormat::Q5_0, 16, 32, 43, 8) > 0.998);
}

#[test]
fn q5_is_no_worse_than_q4_on_same_case() {
    let rows = 128;
    let cols = 256;
    let seed: u64 = 77;
    let shape_q4 = QGemvShape::q4_0(rows, cols);
    let shape_q5 = QGemvShape::q5_0(rows, cols);
    let matrix = seeded_f32s(rows * cols, seed ^ 0x1234_5678_9ABC_DEF0);
    let x = seeded_f32s(cols, seed ^ 0x0BAD_F00D_1234_5678);

    let dense_reference = dense_gemv(&matrix, &x, shape_q4).unwrap();
    let q4_weights = quantize(QuantFormat::Q4_0, &matrix, shape_q4).unwrap();
    let q5_weights = quantize(QuantFormat::Q5_0, &matrix, shape_q5).unwrap();
    let q4 = gemv(QuantFormat::Q4_0, &q4_weights, &x, shape_q4).unwrap();
    let q5 = gemv(QuantFormat::Q5_0, &q5_weights, &x, shape_q5).unwrap();
    let q4n = compare_outputs(&dense_reference, &q4).unwrap();
    let q5n = compare_outputs(&dense_reference, &q5).unwrap();

    assert!(q5n.cosine_similarity >= q4n.cosine_similarity - 1.0e-6);
    assert!(q5n.relative_l2_error <= q4n.relative_l2_error + 1.0e-6);
}

#[test]
fn iq3_rejects_non_multiple_cols() {
    let shape = QGemvShape::iq3_0(4, 33);
    let matrix = vec![0.0f32; shape.rows * shape.cols];
    let err = quantize(QuantFormat::IQ3_0, &matrix, shape).unwrap_err();
    assert!(err.source_message.contains("multiple of block_size"));
}

#[test]
fn iq3_cpu_reference_roundtrip_small() {
    assert!(roundtrip(QuantFormat::IQ3_0, 16, 32, 44, 9) > 0.970);
}

#[test]
fn test_fp4_nibble_order() {
    assert_eq!(f32::from_bits(ieee::decode_f8_e8m0(127)), 1.0);
    let mut block = [0.0f32; 32];
    block[0] = 0.5;
    block[1] = 1.5;
    block[2] = 6.0;
    let (scale, codes) = fp4_block(&block);
    let dst = packing::pack_block(QuantFormat::DeepSeekFp4E2M1, scale, &codes);
    assert_eq!(dst[0], 127);
    assert_eq!(dst[1], 1 | (3 << 4));
    assert_eq!(dst.len(), 17);
}

#[test]
fn test_fp4_positive_negative_values() {
    let mut block = [0.0f32; 32];
    block[0] = 6.0;
    block[1] = -6.0;
    block[2] = 2.0;
    block[3] = -2.0;
    let (scale, codes) = fp4_block(&block);
    let dst = packing::pack_block(QuantFormat::DeepSeekFp4E2M1, scale, &codes);
    assert_eq!(dst[0], 127);
    assert_eq!(dst[1], 7 | (15 << 4));
    assert_eq!(dst[2], 4 | (12 << 4));
}

#[test]
fn test_fp4_multiple_scale_blocks() {
    let shape = QGemvShape::deepseek_fp4(2, 64);
    let mut matrix = vec![0.0f32; 128];
    for i in 0..32 {
        matrix[i] = (i as f32) / 32.0 * 6.0;
    }
    for i in 32..64 {
        matrix[i] = ((i - 32) as f32) / 32.0 * 12.0;
    }
    let qweights = quantize(QuantFormat::DeepSeekFp4E2M1, &matrix, shape).unwrap();
    assert_eq!(qweights[0], 127);
    assert_eq!(qweights[17], 128);
}

#[test]
fn fp4_rejects_non_multiple_cols() {
    let shape = QGemvShape::deepseek_fp4(4, 33);
    let matrix = vec![0.0f32; shape.rows * shape.cols];
    let err = quantize(QuantFormat::DeepSeekFp4E2M1, &matrix, shape).unwrap_err();
    assert!(err.source_message.contains("multiple of block_size"));
}

#[test]
fn test_cuda_act_quant_rejects_non_multiple_cols() {
    assert!(quant::plan_act_quant(100, 1, 100).is_err(), "should reject cols=100");
    assert!(quant::plan_act_quant_device(1, 100).is_err());
    assert_eq!(quant::plan_act_quant(256, 1, 256).unwrap(), 2);
    assert!(quant::plan_act_quant(255, 1, 256).is_err());
}

#[test]
fn fp4_values_are_the_table() {
    let table = [0.0f32, 0.5, 1.0, 1.5, 2.0, 3.0, 4.0, 6.0];
    for code in 0..8u8 {
        assert_eq!(f32::from_bits(packing::fp4_value(code)), table[code as usize]);
        assert_eq!(
            packing::fp4_value(code + 8),
            (-table[code as usize]).to_bits()
        );
    }
}

#[test]
fn codes_are_read_back_from_blocks() {
    let codes: Vec<u8> = (0..32).map(|i| (i * 7 % 32) as u8).collect();
    let block = packing::pack_block(QuantFormat::Q5_0, 0x3c00, &codes);
    assert_eq!(block.len(), 22);
    for lane in 0..32 {
        assert_eq!(packing::code_at(QuantFormat::Q5_0, &block, 0, lane), codes[lane]);
    }
    assert_eq!(packing::scale_at(QuantFormat::Q5_0, &block, 0), 0x3c00);
    assert_eq!(packing::level(QuantFormat::Q5_0, 31), Some(15));
    assert_eq!(packing::level(QuantFormat::DeepSeekFp4E2M1, 3), None);
}

#[test]
fn halves_widen_and_narrow() {
    assert_eq!(f32::from_bits(ieee::f16_to_f32_bits(0x3c00)), 1.0);
    assert_eq!(f32::from_bits(ieee::f16_to_f32_bits(0x0001)), 2.0f32.powi(-24));
    assert_eq!(ieee::f32_to_f16_bits(1.0f32.to_bits()), 0x3c00);
    assert_eq!(ieee::f32_to_f16_bits(65536.0f32.to_bits()), 0x7c00);
    for h in 0..0x7c00u16 {
        assert_eq!(ieee::f32_to_f16_bits(ieee::f16_to_f32_bits(h)), h);
    }
}

#[test]
fn patterns_order_as_numbers() {
    let numbers = [-1.0e30f64, -2.5, -0.0, 0.0, 1.0e-300, 2.5, 1.0e30];
    for a in numbers {
        for b in numbers {
            assert_eq!(ieee::is_less64(a.to_bits(), b.to_bits()), a < b);
            assert_eq!(ieee::is_at_most64(a.to_bits(), b.to_bits()), a <= b);
            let (c, d) = (a as f32, b as f32);
            assert_eq!(ieee::is_less32(c.to_bits(), d.to_bits()), c < d);
        }
    }
    assert!(!ieee::is_less64(f64::NAN.to_bits(), 1.0f64.to_bits()));
    assert_eq!(ieee::scaled_to_u64(2.75f64.to_bits(), 2), 11);
    assert_eq!(ieee::scaled_to_u64((-1.0f64).to_bits(), 0), 0);
    assert_eq!(ieee::scaled_to_u64(1.0e30f64.to_bits(), 0), u64::MAX);
}

#[test]
fn formats_describe_their_blocks() {
    let shape = QGemvShape::q4_0(4, 64);
    assert_eq!(QuantFormat::Q4_0.block_size(), 32);
    assert_eq!(QuantFormat::Q5_0.block_bytes(), 22);
    assert_eq!(QuantFormat::IQ3_0.block_bytes(), 14);
    assert_eq!(QuantFormat::DeepSeekFp4E2M1.block_bytes(), 17);
    assert_eq!(shape.blocks_per_row(), 2);
    assert_eq!(shape.quantized_row_bytes(), 36);
    assert_eq!(shape.quantized_matrix_bytes(), 144);
}

#[test]
fn wrong_sizes_are_refused() {
    let shape = QGemvShape::q4_0(2, 32);
    let e = quant::validate_quant_inputs(QuantFormat::Q4_0, 35, 32, shape).unwrap_err();
    assert_eq!(e.kind, CudaErrorKind::InvalidInput);
    assert!(quant::validate_quant_inputs(QuantFormat::Q4_0, 36, 31, shape).is_err());
    assert!(quant::validate_quant_inputs(QuantFormat::Q5_0, 36, 32, shape).is_err());
    assert!(quant::validate_quant_inputs(QuantFormat::Q4_0, 36, 32, shape).is_ok());
    assert!(quant::validate_dense_gemv(63, 32, shape).is_err());
    assert!(quant::validate_compared_lengths(3, 4)
        .unwrap_err()
        .source_message
        .contains("reference len 3 != actual len 4"));
    let sizes =
        Fp8Fp4Sizes { act_values: 128, act_scales: 1, weight_packed: 128, weight_scales: 8 };
    assert!(quant::validate_fp8_fp4(sizes, 2, 128).is_ok());
    assert!(quant::validate_fp8_fp4(sizes, 3, 128).is_err());
}
