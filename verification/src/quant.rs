//! Block-quantized weight formats: their geometry and the checks on the sizes
//! of what a quantized matrix-vector product is given.

use crate::error;
use crate::error::CudaError;
use crate::text;
use vstd::prelude::*;
use vstd::string::*;

verus! {

/// A block format. Each block holds 32 weights and their common scale.
#[derive(Debug, Clone, Copy, PartialEq, Eq, Hash, Structural)]
pub enum QuantFormat {
    Q4_0,
    Q5_0,
    IQ3_0,
    DeepSeekFp4E2M1,
}

impl QuantFormat {
    /// Bytes of one block.
    pub open spec fn spec_block_bytes(self) -> usize {
        match self {
            QuantFormat::Q4_0 => 18,
            QuantFormat::Q5_0 => 22,
            QuantFormat::IQ3_0 => 14,
            QuantFormat::DeepSeekFp4E2M1 => 17,
        }
    }

    /// The name that identifies the format in messages and reports.
    pub open spec fn spec_format_label(self) -> Seq<char> {
        match self {
            QuantFormat::Q4_0 => "q4_0"@,
            QuantFormat::Q5_0 => "q5_0"@,
            QuantFormat::IQ3_0 => "iq3_0"@,
            QuantFormat::DeepSeekFp4E2M1 => "deepseek_fp4_e2m1"@,
        }
    }

    /// The name of the matrix-vector kernel.
    pub open spec fn spec_kernel_name(self) -> Seq<char> {
        match self {
            QuantFormat::Q4_0 => "q4_gemv"@,
            QuantFormat::Q5_0 => "q5_gemv"@,
            QuantFormat::IQ3_0 => "iq3_gemv"@,
            QuantFormat::DeepSeekFp4E2M1 => "fp4_e2m1_gemv"@,
        }
    }

    /// The element type of the block scales.
    pub open spec fn spec_scale_dtype(self) -> Seq<char> {
        match self {
            QuantFormat::DeepSeekFp4E2M1 => "F8_E8M0"@,
            _ => "F16"@,
        }
    }

    /// Weights per block.
    pub fn block_size(&self) -> (n: usize)
        ensures
            n == 32,
    {
        32
    }

    /// Bytes of one block.
    pub fn block_bytes(&self) -> (n: usize)
        ensures
            n == self.spec_block_bytes(),
    {
        match self {
            QuantFormat::Q4_0 => 18,
            QuantFormat::Q5_0 => 22,
            QuantFormat::IQ3_0 => 14,
            QuantFormat::DeepSeekFp4E2M1 => 17,
        }
    }

    /// The name of the matrix-vector kernel.
    pub fn kernel_name(&self) -> (s: &'static str)
        ensures
            s@ == self.spec_kernel_name(),
    {
        match self {
            QuantFormat::Q4_0 => "q4_gemv",
            QuantFormat::Q5_0 => "q5_gemv",
            QuantFormat::IQ3_0 => "iq3_gemv",
            QuantFormat::DeepSeekFp4E2M1 => "fp4_e2m1_gemv",
        }
    }

    /// The name that identifies the format in messages and reports.
    pub fn format_label(&self) -> (s: &'static str)
        ensures
            s@ == self.spec_format_label(),
    {
        match self {
            QuantFormat::Q4_0 => "q4_0",
            QuantFormat::Q5_0 => "q5_0",
            QuantFormat::IQ3_0 => "iq3_0",
            QuantFormat::DeepSeekFp4E2M1 => "deepseek_fp4_e2m1",
        }
    }

    /// How many weights share a byte of packed values.
    pub fn packed_values_per_byte(&self) -> (n: usize)
        ensures
            n == 2,
    {
        2
    }

    /// The element type of the block scales.
    pub fn scale_dtype(&self) -> (s: &'static str)
        ensures
            s@ == self.spec_scale_dtype(),
    {
        match self {
            QuantFormat::Q4_0 => "F16",
            QuantFormat::Q5_0 => "F16",
            QuantFormat::IQ3_0 => "F16",
            QuantFormat::DeepSeekFp4E2M1 => "F8_E8M0",
        }
    }

    /// Which half of a byte holds the weight with the lower index.
    pub fn nibble_order(&self) -> (s: &'static str)
        ensures
            s@ == "low_first"@,
    {
        "low_first"
    }
}

/// The geometry of a quantized matrix.
#[derive(Debug, Clone, Copy, PartialEq, Eq, Structural)]
pub struct QGemvShape {
    pub rows: usize,
    pub cols: usize,
    pub block_size: usize,
    pub block_bytes: usize,
}

impl QGemvShape {
    /// The shape of a `rows` x `cols` matrix in `format`.
    pub open spec fn spec_new(format: QuantFormat, rows: usize, cols: usize) -> QGemvShape {
        QGemvShape { rows, cols, block_size: 32, block_bytes: format.spec_block_bytes() }
    }

    /// Whole blocks in one row.
    pub open spec fn spec_blocks_per_row(self) -> nat {
        self.cols as nat / self.block_size as nat
    }

    /// Bytes of one quantized row.
    pub open spec fn spec_row_bytes(self) -> nat {
        self.spec_blocks_per_row() * self.block_bytes as nat
    }

    /// Bytes of the quantized matrix.
    pub open spec fn spec_matrix_bytes(self) -> nat {
        self.rows as nat * self.spec_row_bytes()
    }

    /// The shape of a `rows` x `cols` matrix in `format`.
    pub fn new(format: QuantFormat, rows: usize, cols: usize) -> (s: QGemvShape)
        ensures
            s == QGemvShape::spec_new(format, rows, cols),
    {
        QGemvShape {
            rows,
            cols,
            block_size: format.block_size(),
            block_bytes: format.block_bytes(),
        }
    }

    /// The shape of a matrix in `Q4_0`.
    pub fn q4_0(rows: usize, cols: usize) -> (s: QGemvShape)
        ensures
            s == QGemvShape::spec_new(QuantFormat::Q4_0, rows, cols),
    {
        QGemvShape::new(QuantFormat::Q4_0, rows, cols)
    }

    /// The shape of a matrix in `Q5_0`.
    pub fn q5_0(rows: usize, cols: usize) -> (s: QGemvShape)
        ensures
            s == QGemvShape::spec_new(QuantFormat::Q5_0, rows, cols),
    {
        QGemvShape::new(QuantFormat::Q5_0, rows, cols)
    }

    /// The shape of a matrix in `IQ3_0`.
    pub fn iq3_0(rows: usize, cols: usize) -> (s: QGemvShape)
        ensures
            s == QGemvShape::spec_new(QuantFormat::IQ3_0, rows, cols),
    {
        QGemvShape::new(QuantFormat::IQ3_0, rows, cols)
    }

    /// The shape of a matrix in `DeepSeekFp4E2M1`.
    pub fn deepseek_fp4(rows: usize, cols: usize) -> (s: QGemvShape)
        ensures
            s == QGemvShape::spec_new(QuantFormat::DeepSeekFp4E2M1, rows, cols),
    {
        QGemvShape::new(QuantFormat::DeepSeekFp4E2M1, rows, cols)
    }

    /// Whole blocks in one row.
    pub fn blocks_per_row(&self) -> (n: usize)
        requires
            self.block_size > 0,
        ensures
            n == self.spec_blocks_per_row(),
    {
        self.cols / self.block_size
    }

    /// Bytes of one quantized row.
    pub fn quantized_row_bytes(&self) -> (n: usize)
        requires
            self.block_size > 0,
            self.spec_row_bytes() <= usize::MAX,
        ensures
            n == self.spec_row_bytes(),
    {
        self.blocks_per_row() * self.block_bytes
    }

    /// Bytes of the quantized matrix.
    pub fn quantized_matrix_bytes(&self) -> (n: usize)
        requires
            self.block_size > 0,
            self.spec_row_bytes() <= usize::MAX,
            self.spec_matrix_bytes() <= usize::MAX,
        ensures
            n == self.spec_matrix_bytes(),
    {
        self.rows * self.quantized_row_bytes()
    }
}

/// `prefix`, a number, `mid` and another number, as one text.
pub open spec fn two_number_text(prefix: Seq<char>, a: nat, mid: Seq<char>, b: nat) -> Seq<char> {
    prefix + text::decimal(a) + mid + text::decimal(b)
}

/// `prefix`, a number, `mid` and another number, as one text.
pub fn two_number_message(prefix: &str, a: usize, mid: &str, b: usize) -> (s: String)
    ensures
        s@ == two_number_text(prefix@, a as nat, mid@, b as nat),
{
    let mut s = prefix.to_owned();
    text::push_usize(&mut s, a);
    s.append(mid);
    text::push_usize(&mut s, b);
    s
}

/// `prefix`, the label of `format` and `suffix`, as one text.
fn labelled(prefix: &str, format: QuantFormat, suffix: &str) -> (s: String)
    ensures
        s@ == prefix@ + format.spec_format_label() + suffix@,
{
    let mut s = prefix.to_owned();
    s.append(format.format_label());
    s.append(suffix);
    s
}

/// What is wrong with the block constants of `shape`, taken as a shape of `format`.
pub open spec fn shape_metadata_fault(format: QuantFormat, shape: QGemvShape) -> Option<
    error::Fault,
> {
    if shape.block_size != 32 || shape.block_bytes != format.spec_block_bytes() {
        Some(
            error::invalid(
                error::Source::Quant,
                "validate "@ + format.spec_format_label() + " shape constants"@,
                "expected block_size="@ + text::decimal(32) + " block_bytes="@ + text::decimal(
                    format.spec_block_bytes() as nat,
                ) + ", got block_size="@ + text::decimal(shape.block_size as nat)
                    + " block_bytes="@ + text::decimal(shape.block_bytes as nat),
            ),
        )
    } else {
        None
    }
}

/// The columns do not fill whole blocks.
pub open spec fn alignment_fault(format: QuantFormat, shape: QGemvShape) -> error::Fault {
    error::invalid(
        error::Source::Quant,
        "validate "@ + format.spec_format_label() + " column alignment"@,
        two_number_text(
            "cols "@,
            shape.cols as nat,
            " must be a multiple of block_size "@,
            shape.block_size as nat,
        ),
    )
}

/// What is wrong with quantizing `matrix_len` values as a matrix of `shape`.
pub open spec fn dense_matrix_fault(
    format: QuantFormat,
    matrix_len: usize,
    shape: QGemvShape,
) -> Option<error::Fault> {
    if shape_metadata_fault(format, shape) is Some {
        shape_metadata_fault(format, shape)
    } else if matrix_len != shape.rows * shape.cols {
        Some(
            error::invalid(
                error::Source::Quant,
                "validate dense matrix size for "@ + format.spec_format_label(),
                two_number_text(
                    "matrix len "@,
                    matrix_len as nat,
                    " != rows*cols "@,
                    (shape.rows * shape.cols) as nat,
                ),
            ),
        )
    } else if shape.cols % shape.block_size != 0 {
        Some(alignment_fault(format, shape))
    } else {
        None
    }
}

/// What is wrong with multiplying `qweights_len` quantized bytes of `shape` by
/// a vector of `x_len` values.
pub open spec fn quant_inputs_fault(
    format: QuantFormat,
    qweights_len: usize,
    x_len: usize,
    shape: QGemvShape,
) -> Option<error::Fault> {
    if shape_metadata_fault(format, shape) is Some {
        shape_metadata_fault(format, shape)
    } else if shape.cols % shape.block_size != 0 {
        Some(alignment_fault(format, shape))
    } else if qweights_len != shape.spec_matrix_bytes() {
        Some(
            error::invalid(
                error::Source::Quant,
                "validate "@ + format.spec_format_label() + " quantized matrix size"@,
                two_number_text(
                    "qweights len "@,
                    qweights_len as nat,
                    " != expected "@,
                    shape.spec_matrix_bytes(),
                ),
            ),
        )
    } else if x_len != shape.cols {
        Some(
            error::invalid(
                error::Source::Quant,
                "validate "@ + format.spec_format_label() + " GEMV vector size"@,
                two_number_text("x len "@, x_len as nat, " != cols "@, shape.cols as nat),
            ),
        )
    } else {
        None
    }
}

/// Checks that `shape` has the block constants of `format`.
pub fn validate_shape_metadata(format: QuantFormat, shape: QGemvShape) -> (r: Result<(), CudaError>)
    ensures
        match r {
            Ok(_) => shape_metadata_fault(format, shape) is None,
            Err(e) => shape_metadata_fault(format, shape) == Some(e@),
        },
{
    let expected_block_size: usize = format.block_size();
    let expected_block_bytes: usize = format.block_bytes();
    if shape.block_size != expected_block_size || shape.block_bytes != expected_block_bytes {
        let mut m = "expected block_size=".to_owned();
        text::push_usize(&mut m, expected_block_size);
        m.append(" block_bytes=");
        text::push_usize(&mut m, expected_block_bytes);
        m.append(", got block_size=");
        text::push_usize(&mut m, shape.block_size);
        m.append(" block_bytes=");
        text::push_usize(&mut m, shape.block_bytes);
        let action = labelled("validate ", format, " shape constants");
        return Err(error::raise_invalid(error::Source::Quant, action.as_str(), m));
    }
    Ok(())
}

fn misaligned(format: QuantFormat, shape: QGemvShape) -> (e: CudaError)
    ensures
        e@ == alignment_fault(format, shape),
{
    let action = labelled("validate ", format, " column alignment");
    error::raise_invalid(
        error::Source::Quant,
        action.as_str(),
        two_number_message(
            "cols ",
            shape.cols,
            " must be a multiple of block_size ",
            shape.block_size,
        ),
    )
}

/// Checks that `matrix_len` values make up a matrix of `shape` whose rows fill
/// whole blocks of `format`.
pub fn validate_dense_matrix(format: QuantFormat, matrix_len: usize, shape: QGemvShape) -> (r:
    Result<(), CudaError>)
    requires
        shape_metadata_fault(format, shape) is None ==> shape.rows * shape.cols <= usize::MAX,
    ensures
        match r {
            Ok(_) => dense_matrix_fault(format, matrix_len, shape) is None,
            Err(e) => dense_matrix_fault(format, matrix_len, shape) == Some(e@),
        },
{
    match validate_shape_metadata(format, shape) {
        Ok(_) => {},
        Err(e) => {
            return Err(e);
        },
    }
    let expected: usize = shape.rows * shape.cols;
    if matrix_len != expected {
        let mut action = "validate dense matrix size for ".to_owned();
        action.append(format.format_label());
        return Err(
            error::raise_invalid(
                error::Source::Quant,
                action.as_str(),
                two_number_message("matrix len ", matrix_len, " != rows*cols ", expected),
            ),
        );
    }
    if shape.cols % shape.block_size != 0 {
        return Err(misaligned(format, shape));
    }
    Ok(())
}

/// Checks the sizes that a quantized matrix-vector product is given.
pub fn validate_quant_inputs(
    format: QuantFormat,
    qweights_len: usize,
    x_len: usize,
    shape: QGemvShape,
) -> (r: Result<(), CudaError>)
    requires
        shape_metadata_fault(format, shape) is None ==> shape.spec_row_bytes() <= usize::MAX
            && shape.spec_matrix_bytes() <= usize::MAX,
    ensures
        match r {
            Ok(_) => quant_inputs_fault(format, qweights_len, x_len, shape) is None,
            Err(e) => quant_inputs_fault(format, qweights_len, x_len, shape) == Some(e@),
        },
{
    match validate_shape_metadata(format, shape) {
        Ok(_) => {},
        Err(e) => {
            return Err(e);
        },
    }
    if shape.cols % shape.block_size != 0 {
        return Err(misaligned(format, shape));
    }
    let expected_qbytes: usize = shape.quantized_matrix_bytes();
    if qweights_len != expected_qbytes {
        let action = labelled("validate ", format, " quantized matrix size");
        return Err(
            error::raise_invalid(
                error::Source::Quant,
                action.as_str(),
                two_number_message("qweights len ", qweights_len, " != expected ", expected_qbytes),
            ),
        );
    }
    if x_len != shape.cols {
        let action = labelled("validate ", format, " GEMV vector size");
        return Err(
            error::raise_invalid(
                error::Source::Quant,
                action.as_str(),
                two_number_message("x len ", x_len, " != cols ", shape.cols),
            ),
        );
    }
    Ok(())
}

/// What is wrong with a dense product of `matrix_len` values by `x_len` values.
pub open spec fn dense_gemv_fault(matrix_len: usize, x_len: usize, shape: QGemvShape) -> Option<
    error::Fault,
> {
    if matrix_len != shape.rows * shape.cols {
        Some(
            error::invalid(
                error::Source::Quant,
                "dense_gemv_cpu"@,
                two_number_text(
                    "matrix len "@,
                    matrix_len as nat,
                    " != rows * cols "@,
                    (shape.rows * shape.cols) as nat,
                ),
            ),
        )
    } else if x_len != shape.cols {
        Some(
            error::invalid(
                error::Source::Quant,
                "dense_gemv_cpu"@,
                two_number_text("vector len "@, x_len as nat, " != cols "@, shape.cols as nat),
            ),
        )
    } else {
        None
    }
}

/// Checks the sizes that a dense matrix-vector product is given.
pub fn validate_dense_gemv(matrix_len: usize, x_len: usize, shape: QGemvShape) -> (r: Result<
    (),
    CudaError,
>)
    requires
        shape.rows * shape.cols <= usize::MAX,
    ensures
        match r {
            Ok(_) => dense_gemv_fault(matrix_len, x_len, shape) is None,
            Err(e) => dense_gemv_fault(matrix_len, x_len, shape) == Some(e@),
        },
{
    let expected: usize = shape.rows * shape.cols;
    if matrix_len != expected {
        return Err(
            error::raise_invalid(
                error::Source::Quant,
                "dense_gemv_cpu",
                two_number_message("matrix len ", matrix_len, " != rows * cols ", expected),
            ),
        );
    }
    if x_len != shape.cols {
        return Err(
            error::raise_invalid(
                error::Source::Quant,
                "dense_gemv_cpu",
                two_number_message("vector len ", x_len, " != cols ", shape.cols),
            ),
        );
    }
    Ok(())
}

/// Checks that two outputs to be compared have the same length.
pub fn validate_compared_lengths(reference_len: usize, actual_len: usize) -> (r: Result<
    (),
    CudaError,
>)
    ensures
        match r {
            Ok(_) => reference_len == actual_len,
            Err(e) => reference_len != actual_len && e@ == error::invalid(
                error::Source::Quant,
                "compare quantized GEMV outputs"@,
                two_number_text(
                    "reference len "@,
                    reference_len as nat,
                    " != actual len "@,
                    actual_len as nat,
                ),
            ),
        },
{
    if reference_len != actual_len {
        return Err(
            error::raise_invalid(
                error::Source::Quant,
                "compare quantized GEMV outputs",
                two_number_message("reference len ", reference_len, " != actual len ", actual_len),
            ),
        );
    }
    Ok(())
}

/// The activation columns do not fill whole groups of 128.
pub open spec fn act_quant_cols_fault(action: Seq<char>, cols: usize) -> error::Fault {
    error::invalid(
        error::Source::Quant,
        action,
        "cols "@ + text::decimal(cols as nat) + " not divisible by 128"@,
    )
}

/// What is wrong with quantizing `input_len` activations as `rows` x `cols`.
pub open spec fn act_quant_fault(input_len: usize, rows: usize, cols: usize) -> Option<
    error::Fault,
> {
    if cols % 128 != 0 {
        Some(act_quant_cols_fault("cuda_act_quant"@, cols))
    } else if input_len != rows * cols {
        Some(
            error::invalid(
                error::Source::Quant,
                "cuda_act_quant"@,
                two_number_text("input len "@, input_len as nat, " != rows "@, rows as nat)
                    + " * cols "@ + text::decimal(cols as nat),
            ),
        )
    } else {
        None
    }
}

fn raise_act_quant_cols(action: &str, cols: usize) -> (e: CudaError)
    ensures
        e@ == act_quant_cols_fault(action@, cols),
{
    let mut m = "cols ".to_owned();
    text::push_usize(&mut m, cols);
    m.append(" not divisible by 128");
    error::raise_invalid(error::Source::Quant, action, m)
}

/// How many scales an activation of `rows` x `cols` has: one for each 128
/// values of a row. Refuses sizes that `act_quant_fault` describes.
pub fn plan_act_quant(input_len: usize, rows: usize, cols: usize) -> (r: Result<usize, CudaError>)
    requires
        rows * cols <= usize::MAX,
    ensures
        match r {
            Ok(scales) => act_quant_fault(input_len, rows, cols) is None && scales == rows * (cols
                / 128),
            Err(e) => act_quant_fault(input_len, rows, cols) == Some(e@),
        },
{
    if cols % 128 != 0 {
        return Err(raise_act_quant_cols("cuda_act_quant", cols));
    }
    if input_len != rows * cols {
        let mut m = two_number_message("input len ", input_len, " != rows ", rows);
        m.append(" * cols ");
        text::push_usize(&mut m, cols);
        return Err(error::raise_invalid(error::Source::Quant, "cuda_act_quant", m));
    }
    assert(rows * (cols / 128) <= rows * cols) by (nonlinear_arith)
        requires
            rows >= 0,
            cols >= 0,
    ;
    Ok(rows * (cols / 128))
}

/// As `plan_act_quant`, for an activation that is on the device already: only
/// the columns are checked.
pub fn plan_act_quant_device(rows: usize, cols: usize) -> (r: Result<usize, CudaError>)
    requires
        rows * cols <= usize::MAX,
    ensures
        match r {
            Ok(scales) => cols % 128 == 0 && scales == rows * (cols / 128),
            Err(e) => cols % 128 != 0 && e@ == act_quant_cols_fault(
                "cuda_act_quant_device"@,
                cols,
            ),
        },
{
    if cols % 128 != 0 {
        return Err(raise_act_quant_cols("cuda_act_quant_device", cols));
    }
    assert(rows * (cols / 128) <= rows * cols) by (nonlinear_arith)
        requires
            rows >= 0,
            cols >= 0,
    ;
    Ok(rows * (cols / 128))
}

/// The sizes that a product of 8-bit activations by 4-bit weights is given.
#[derive(Debug, Clone, Copy, PartialEq, Eq, Structural)]
pub struct Fp8Fp4Sizes {
    pub act_values: usize,
    pub act_scales: usize,
    pub weight_packed: usize,
    pub weight_scales: usize,
}

/// The sizes that a product over `rows` rows of `k_logical` weights needs.
pub open spec fn fp8_fp4_expected(rows: usize, k_logical: usize) -> (nat, nat, nat, nat) {
    (
        k_logical as nat,
        k_logical as nat / 128,
        rows as nat * (k_logical as nat / 2),
        rows as nat * (k_logical as nat / 32),
    )
}

/// What is wrong with the sizes of a product of 8-bit activations by 4-bit weights.
pub open spec fn fp8_fp4_fault(sizes: Fp8Fp4Sizes, rows: usize, k_logical: usize) -> Option<
    error::Fault,
> {
    let want = fp8_fp4_expected(rows, k_logical);
    if k_logical % 128 != 0 {
        Some(
            error::invalid(
                error::Source::Quant,
                "cuda_fp8_act_fp4_weight_gemv"@,
                "K_logical "@ + text::decimal(k_logical as nat) + " must be multiple of 128"@,
            ),
        )
    } else if sizes.act_values != want.0 || sizes.act_scales != want.1 || sizes.weight_packed
        != want.2 || sizes.weight_scales != want.3 {
        Some(
            error::invalid(
                error::Source::Quant,
                "cuda_fp8_act_fp4_weight_gemv"@,
                "size mismatch: act_v="@ + text::decimal(sizes.act_values as nat) + "/"@
                    + text::decimal(want.0) + ", act_s="@ + text::decimal(sizes.act_scales as nat)
                    + "/"@ + text::decimal(want.1) + ", wt="@ + text::decimal(
                    sizes.weight_packed as nat,
                ) + "/"@ + text::decimal(want.2) + ", wt_s="@ + text::decimal(
                    sizes.weight_scales as nat,
                ) + "/"@ + text::decimal(want.3),
            ),
        )
    } else {
        None
    }
}

/// Checks the sizes of a product of 8-bit activations by 4-bit weights. On
/// success, the bytes that the product reads.
pub fn validate_fp8_fp4(sizes: Fp8Fp4Sizes, rows: usize, k_logical: usize) -> (r: Result<
    usize,
    CudaError,
>)
    requires
        rows * k_logical <= usize::MAX,
        sizes.act_values + sizes.act_scales + sizes.weight_packed + sizes.weight_scales
            <= usize::MAX,
    ensures
        match r {
            Ok(bytes) => fp8_fp4_fault(sizes, rows, k_logical) is None && bytes == sizes.act_values
                + sizes.act_scales + sizes.weight_packed + sizes.weight_scales,
            Err(e) => fp8_fp4_fault(sizes, rows, k_logical) == Some(e@),
        },
{
    if k_logical % 128 != 0 {
        let mut m = "K_logical ".to_owned();
        text::push_usize(&mut m, k_logical);
        m.append(" must be multiple of 128");
        return Err(error::raise_invalid(error::Source::Quant, "cuda_fp8_act_fp4_weight_gemv", m));
    }
    assert(rows * (k_logical / 2) <= rows * k_logical && rows * (k_logical / 32) <= rows
        * k_logical) by (nonlinear_arith)
        requires
            rows >= 0,
            k_logical >= 0,
    ;
    let act_values: usize = k_logical;
    let act_scales: usize = k_logical / 128;
    let weight_packed: usize = rows * (k_logical / 2);
    let weight_scales: usize = rows * (k_logical / 32);
    if sizes.act_values != act_values || sizes.act_scales != act_scales || sizes.weight_packed
        != weight_packed || sizes.weight_scales != weight_scales {
        let mut m = "size mismatch: act_v=".to_owned();
        text::push_usize(&mut m, sizes.act_values);
        m.append("/");
        text::push_usize(&mut m, act_values);
        m.append(", act_s=");
        text::push_usize(&mut m, sizes.act_scales);
        m.append("/");
        text::push_usize(&mut m, act_scales);
        m.append(", wt=");
        text::push_usize(&mut m, sizes.weight_packed);
        m.append("/");
        text::push_usize(&mut m, weight_packed);
        m.append(", wt_s=");
        text::push_usize(&mut m, sizes.weight_scales);
        m.append("/");
        text::push_usize(&mut m, weight_scales);
        return Err(error::raise_invalid(error::Source::Quant, "cuda_fp8_act_fp4_weight_gemv", m));
    }
    Ok(sizes.act_values + sizes.act_scales + sizes.weight_packed + sizes.weight_scales)
}

// ---------------------------------------------------------------------------
// Laws
// ---------------------------------------------------------------------------

/// How many bits a format spends on a value, without its scale.
pub open spec fn value_bits(f: QuantFormat) -> nat {
    match f {
        QuantFormat::Q4_0 | QuantFormat::DeepSeekFp4E2M1 => 4,
        QuantFormat::Q5_0 => 5,
        QuantFormat::IQ3_0 => 3,
    }
}

/// How many bits a block's scale has: those of a 16-bit number, or those of an
/// 8-bit power of two.
pub open spec fn scale_bits(f: QuantFormat) -> nat {
    if f.spec_scale_dtype() == "F16"@ {
        16
    } else {
        8
    }
}

/// A block holds its scale and thirty-two values, and nothing else.
pub proof fn blocks_hold_scale_and_values(f: QuantFormat)
    ensures
        8 * f.spec_block_bytes() == scale_bits(f) + 32 * value_bits(f),
        f.spec_scale_dtype() == "F8_E8M0"@ <==> f == QuantFormat::DeepSeekFp4E2M1,
{
    reveal_strlit("F16");
    reveal_strlit("F8_E8M0");
    assert("F16"@.len() == 3 && "F8_E8M0"@.len() == 7);
}

/// The bytes of a matrix: one block for every thirty-two values of a row. What is
/// left of a row that is no whole number of blocks has no bytes.
pub proof fn matrices_are_made_of_blocks(f: QuantFormat, rows: usize, cols: usize)
    ensures
        ({
            let s = QGemvShape::spec_new(f, rows, cols);
            &&& s.spec_matrix_bytes() == rows * s.spec_row_bytes()
            &&& s.spec_row_bytes() == s.spec_blocks_per_row() * f.spec_block_bytes()
            &&& 32 * s.spec_blocks_per_row() <= cols < 32 * (s.spec_blocks_per_row() + 1)
            &&& cols % 32 == 0 ==> 32 * s.spec_matrix_bytes() == rows * cols * f.spec_block_bytes()
        }),
{
    let s = QGemvShape::spec_new(f, rows, cols);
    let (r, c, b) = (rows as int, cols as int / 32, f.spec_block_bytes() as int);
    assert(s.spec_matrix_bytes() == r * (c * b));
    if cols % 32 == 0 {
        assert(cols == 32 * c);
        assert(32 * (r * (c * b)) == r * (32 * c) * b) by (nonlinear_arith);
    }
}

/// Formats are told apart by label and by kernel.
pub proof fn formats_are_told_apart(a: QuantFormat, b: QuantFormat)
    ensures
        a.spec_format_label() == b.spec_format_label() ==> a == b,
        a.spec_kernel_name() == b.spec_kernel_name() ==> a == b,
{
    reveal_strlit("q4_0");
    reveal_strlit("q5_0");
    reveal_strlit("iq3_0");
    reveal_strlit("deepseek_fp4_e2m1");
    reveal_strlit("q4_gemv");
    reveal_strlit("q5_gemv");
    reveal_strlit("iq3_gemv");
    reveal_strlit("fp4_e2m1_gemv");
    assert("q4_0"@[1] == '4' && "q5_0"@[1] == '5' && "iq3_0"@.len() == 5);
    assert("q4_0"@.len() == 4 && "q5_0"@.len() == 4 && "deepseek_fp4_e2m1"@.len() == 17);
    assert("q4_gemv"@[1] == '4' && "q5_gemv"@[1] == '5' && "iq3_gemv"@.len() == 8);
    assert("q4_gemv"@.len() == 7 && "q5_gemv"@.len() == 7 && "fp4_e2m1_gemv"@.len() == 13);
}

/// The shape of a format is the only one that is accepted for it, and a shape of
/// one format is refused for another with blocks of another size.
pub proof fn shapes_are_accepted(f: QuantFormat, shape: QGemvShape)
    ensures
        shape_metadata_fault(f, shape) is None <==> shape == QGemvShape::spec_new(
            f,
            shape.rows,
            shape.cols,
        ),
{
}

/// A dense matrix is accepted exactly when it has one number for each row and
/// column and its rows are whole numbers of blocks.
pub proof fn dense_matrices_are_accepted(f: QuantFormat, len: usize, rows: usize, cols: usize)
    requires
        rows * cols <= usize::MAX,
    ensures
        dense_matrix_fault(f, len, QGemvShape::spec_new(f, rows, cols)) is None <==> len == rows
            * cols && cols % 32 == 0,
{
}

/// A quantized product is accepted exactly when the rows are whole numbers of
/// blocks, the matrix has its bytes and the vector one number for each column.
pub proof fn quantized_products_are_accepted(
    f: QuantFormat,
    bytes: usize,
    x_len: usize,
    rows: usize,
    cols: usize,
)
    ensures
        quant_inputs_fault(f, bytes, x_len, QGemvShape::spec_new(f, rows, cols)) is None <==> cols
            % 32 == 0 && 32 * bytes == rows * cols * f.spec_block_bytes() && x_len == cols,
{
    matrices_are_made_of_blocks(f, rows, cols);
}

/// A dense product is accepted exactly when the matrix has one number for each row
/// and column and the vector one for each column.
pub proof fn dense_products_are_accepted(len: usize, x_len: usize, shape: QGemvShape)
    ensures
        dense_gemv_fault(len, x_len, shape) is None <==> len == shape.rows * shape.cols && x_len
            == shape.cols,
{
}

/// Activations are quantized exactly when their rows are whole groups of 128 and
/// all of them are there.
pub proof fn activations_are_accepted(len: usize, rows: usize, cols: usize)
    ensures
        act_quant_fault(len, rows, cols) is None <==> cols % 128 == 0 && len == rows * cols,
{
}

/// A product of FP8 activations and FP4 weights is accepted exactly when it has
/// one activation for each column, a scale for each 128 of them, two weights to a
/// byte and a scale for each 32 weights.
pub proof fn mixed_products_are_accepted(sizes: Fp8Fp4Sizes, rows: usize, k: usize)
    ensures
        fp8_fp4_fault(sizes, rows, k) is None <==> {
            &&& k % 128 == 0
            &&& sizes.act_values == k
            &&& 128 * sizes.act_scales == k
            &&& 2 * sizes.weight_packed == rows * k
            &&& 32 * sizes.weight_scales == rows * k
        },
{
    if k % 128 == 0 {
        let (r, n) = (rows as int, k as int / 128);
        assert(k == 128 * n);
        assert(k as int / 2 == 64 * n && k as int / 32 == 4 * n);
        assert(2 * (r * (64 * n)) == r * (128 * n)) by (nonlinear_arith);
        assert(32 * (r * (4 * n)) == r * (128 * n)) by (nonlinear_arith);
    }
}

/// A message with two numbers starts with the first and ends with the second.
pub proof fn two_numbers_are_told(prefix: Seq<char>, a: nat, mid: Seq<char>, b: nat)
    ensures
        text::occurs_at(two_number_text(prefix, a, mid, b), prefix + text::decimal(a), 0),
        text::ends_with_text(two_number_text(prefix, a, mid, b), mid + text::decimal(b)),
{
    let s = two_number_text(prefix, a, mid, b);
    let (x, y) = (prefix + text::decimal(a), mid + text::decimal(b));
    assert(s == x + y);
    assert(s.subrange(0, x.len() as int) == x);
    assert(s.subrange(s.len() - y.len(), s.len() as int) == y);
}

/// What is said of a size names the size at hand first and the size needed last.
pub proof fn sizes_are_named(format: QuantFormat, len: usize, x_len: usize, shape: QGemvShape)
    requires
        shape_metadata_fault(format, shape) is None,
    ensures
        len != shape.rows * shape.cols ==> {
            let m = dense_matrix_fault(format, len, shape)->0.message;
            &&& text::occurs_at(m, "matrix len "@ + text::decimal(len as nat), 0)
            &&& text::ends_with_text(
                m,
                " != rows*cols "@ + text::decimal((shape.rows * shape.cols) as nat),
            )
        },
        shape.cols % shape.block_size == 0 && len != shape.spec_matrix_bytes() ==> {
            let m = quant_inputs_fault(format, len, x_len, shape)->0.message;
            &&& text::occurs_at(m, "qweights len "@ + text::decimal(len as nat), 0)
            &&& text::ends_with_text(
                m,
                " != expected "@ + text::decimal(shape.spec_matrix_bytes()),
            )
        },
        shape.cols % shape.block_size == 0 && len == shape.spec_matrix_bytes() && x_len
            != shape.cols ==> {
            let m = quant_inputs_fault(format, len, x_len, shape)->0.message;
            &&& text::occurs_at(m, "x len "@ + text::decimal(x_len as nat), 0)
            &&& text::ends_with_text(m, " != cols "@ + text::decimal(shape.cols as nat))
        },
        shape.cols % shape.block_size != 0 ==> {
            let m = quant_inputs_fault(format, len, x_len, shape)->0.message;
            &&& text::occurs_at(m, "cols "@ + text::decimal(shape.cols as nat), 0)
            &&& text::ends_with_text(
                m,
                " must be a multiple of block_size "@ + text::decimal(shape.block_size as nat),
            )
        },
{
    two_numbers_are_told(
        "matrix len "@,
        len as nat,
        " != rows*cols "@,
        (shape.rows * shape.cols) as nat,
    );
    two_numbers_are_told("qweights len "@, len as nat, " != expected "@, shape.spec_matrix_bytes());
    two_numbers_are_told("x len "@, x_len as nat, " != cols "@, shape.cols as nat);
    two_numbers_are_told(
        "cols "@,
        shape.cols as nat,
        " must be a multiple of block_size "@,
        shape.block_size as nat,
    );
}

} // verus!
