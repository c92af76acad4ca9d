//! Running the selected experts of a mixture-of-experts layer: the checks on
//! what is given, the loading of expert tensors through the device cache, and
//! the accounting of the bytes that move.

use crate::cache::ExpertTensorKind;
use crate::error;
use crate::error::CudaError;
use crate::quant;
use crate::quant::{QGemvShape, QuantFormat};
use crate::text;
use vstd::prelude::*;
use vstd::string::*;

verus! {

/// The quantized matrices of one expert.
#[derive(Debug, Clone)]
pub struct ExpertWeights {
    pub w_gate: Vec<u8>,
    pub w_up: Vec<u8>,
    pub w_down: Vec<u8>,
}

/// The 4-bit matrices of one expert, values and scales apart.
#[derive(Debug, Clone)]
pub struct DeepSeekFp4ExpertWeights {
    pub gate_weight: Vec<u8>,
    pub gate_scale: Vec<u8>,
    pub up_weight: Vec<u8>,
    pub up_scale: Vec<u8>,
    pub down_weight: Vec<u8>,
    pub down_scale: Vec<u8>,
}

/// The dimensions of an expert: it maps `hidden` values over `intermediate`
/// values to `out_dim` values.
#[derive(Debug, Clone, Copy, PartialEq, Eq, Structural)]
pub struct ExpertDims {
    pub hidden: usize,
    pub intermediate: usize,
    pub out_dim: usize,
}

/// One tensor of an expert and how many bytes it has.
#[derive(Debug, Clone, Copy, PartialEq, Eq, Structural)]
pub struct TensorLoad {
    pub kind: ExpertTensorKind,
    pub bytes: usize,
}

// ---------------------------------------------------------------------------
// Sizes
// ---------------------------------------------------------------------------

impl ExpertDims {
    /// Bytes of a gate or up matrix in `Q4_0`.
    pub open spec fn q4_gate_up_bytes(self) -> nat {
        QGemvShape::spec_new(
            QuantFormat::Q4_0,
            self.intermediate,
            self.hidden,
        ).spec_matrix_bytes()
    }

    /// Bytes of a down matrix in `Q4_0`.
    pub open spec fn q4_down_bytes(self) -> nat {
        QGemvShape::spec_new(
            QuantFormat::Q4_0,
            self.out_dim,
            self.intermediate,
        ).spec_matrix_bytes()
    }

    /// Bytes of an expert in `Q4_0`.
    pub open spec fn q4_expert_bytes(self) -> nat {
        self.q4_gate_up_bytes() * 2 + self.q4_down_bytes()
    }

    /// Bytes of the values of a 4-bit gate or up matrix: two values to a byte.
    pub open spec fn fp4_gate_up_weight_bytes(self) -> nat {
        self.intermediate as nat * (self.hidden as nat / 2)
    }

    /// Bytes of the scales of a 4-bit gate or up matrix: one for 32 values.
    pub open spec fn fp4_gate_up_scale_bytes(self) -> nat {
        self.intermediate as nat * (self.hidden as nat / 32)
    }

    /// Bytes of the values of a 4-bit down matrix.
    pub open spec fn fp4_down_weight_bytes(self) -> nat {
        self.out_dim as nat * (self.intermediate as nat / 2)
    }

    /// Bytes of the scales of a 4-bit down matrix.
    pub open spec fn fp4_down_scale_bytes(self) -> nat {
        self.out_dim as nat * (self.intermediate as nat / 32)
    }

    /// Bytes of a 4-bit expert.
    pub open spec fn fp4_expert_bytes(self) -> nat {
        self.fp4_gate_up_weight_bytes() * 2 + self.fp4_gate_up_scale_bytes() * 2
            + self.fp4_down_weight_bytes() + self.fp4_down_scale_bytes()
    }

    /// Bytes of a 4-bit expert, each matrix counted as a whole: half a byte for
    /// a value and one byte for 32 values.
    pub open spec fn official_expert_bytes(self) -> nat {
        let gate_up = self.intermediate as nat * self.hidden as nat;
        let down = self.out_dim as nat * self.intermediate as nat;
        (gate_up / 2) * 2 + (gate_up / 32) * 2 + down / 2 + down / 32
    }

    /// Bytes of a shared 8-bit expert: one for a value and one for 128 values.
    pub open spec fn shared_expert_bytes(self) -> nat {
        let gate_up = self.intermediate as nat * self.hidden as nat;
        let down = self.out_dim as nat * self.intermediate as nat;
        (2 * gate_up + down) + (2 * (gate_up / 128) + down / 128)
    }

    /// The matrices are small enough for their elements to be counted.
    pub open spec fn countable(self) -> bool {
        &&& self.intermediate * self.hidden <= usize::MAX / 8
        &&& self.out_dim * self.intermediate <= usize::MAX / 8
    }
}

/// Bytes of a matrix in `Q4_0`, for a matrix whose elements can be counted.
fn q4_matrix_bytes(rows: usize, cols: usize) -> (n: usize)
    requires
        rows * cols <= usize::MAX / 8,
    ensures
        n == QGemvShape::spec_new(QuantFormat::Q4_0, rows, cols).spec_matrix_bytes(),
        n <= usize::MAX / 8,
{
    let shape = QGemvShape::new(QuantFormat::Q4_0, rows, cols);
    proof {
        let per_row = shape.spec_blocks_per_row() as int;
        assert(per_row == cols as int / 32);
        assert(18 * per_row <= cols);
        assert(rows * (per_row * 18) <= rows * cols) by (nonlinear_arith)
            requires
                18 * per_row <= cols,
                rows >= 0,
        ;
        assert(per_row * 18 == shape.spec_row_bytes());
    }
    shape.quantized_matrix_bytes()
}

/// `rows` rows of `cols / group` bytes.
fn grouped_bytes(rows: usize, cols: usize, group: usize) -> (n: usize)
    requires
        rows * cols <= usize::MAX / 8,
        group == 2 || group == 32,
    ensures
        n == rows as nat * (cols as nat / group as nat),
        n <= usize::MAX / 8,
{
    assert(rows * (cols / group) <= rows * cols) by (nonlinear_arith)
        requires
            rows >= 0,
            cols >= 0,
            group >= 1,
    ;
    rows * (cols / group)
}

impl ExpertDims {
    /// Bytes of an expert in `Q4_0`.
    pub fn q4_bytes_per_expert(&self) -> (n: usize)
        requires
            self.countable(),
        ensures
            n == self.q4_expert_bytes(),
    {
        q4_matrix_bytes(self.intermediate, self.hidden) * 2 + q4_matrix_bytes(
            self.out_dim,
            self.intermediate,
        )
    }

    /// Bytes of a 4-bit expert.
    pub fn fp4_bytes_per_expert(&self) -> (n: usize)
        requires
            self.countable(),
        ensures
            n == self.fp4_expert_bytes(),
    {
        grouped_bytes(self.intermediate, self.hidden, 2) * 2 + grouped_bytes(
            self.intermediate,
            self.hidden,
            32,
        ) * 2 + grouped_bytes(self.out_dim, self.intermediate, 2) + grouped_bytes(
            self.out_dim,
            self.intermediate,
            32,
        )
    }

    /// Bytes of a 4-bit expert, each matrix counted as a whole.
    pub fn official_bytes_per_expert(&self) -> (n: usize)
        requires
            self.countable(),
        ensures
            n == self.official_expert_bytes(),
    {
        let gate_up: usize = self.intermediate * self.hidden;
        let down: usize = self.out_dim * self.intermediate;
        (gate_up / 2) * 2 + (gate_up / 32) * 2 + down / 2 + down / 32
    }

    /// Bytes of a shared 8-bit expert.
    pub fn shared_bytes_per_expert(&self) -> (n: usize)
        requires
            self.countable(),
        ensures
            n == self.shared_expert_bytes(),
    {
        let gate_up: usize = self.intermediate * self.hidden;
        let down: usize = self.out_dim * self.intermediate;
        (2 * gate_up + down) + (2 * (gate_up / 128) + down / 128)
    }
}

/// The two ways of counting a 4-bit expert agree where the rows fill whole
/// groups of 32 values.
pub proof fn expert_bytes_agree(dims: ExpertDims)
    requires
        dims.hidden % 32 == 0,
        dims.intermediate % 32 == 0,
    ensures
        dims.official_expert_bytes() == dims.fp4_expert_bytes(),
{
    lemma_group_rows(dims.intermediate as nat, dims.hidden as nat, 2);
    lemma_group_rows(dims.intermediate as nat, dims.hidden as nat, 32);
    lemma_group_rows(dims.out_dim as nat, dims.intermediate as nat, 2);
    lemma_group_rows(dims.out_dim as nat, dims.intermediate as nat, 32);
}

proof fn lemma_group_rows(rows: nat, cols: nat, group: nat)
    requires
        group == 2 || group == 32,
        cols % 32 == 0,
    ensures
        (rows * cols) / group == rows * (cols / group),
{
    let q = cols / group;
    assert(cols == q * group);
    assert(rows * (q * group) == (rows * q) * group) by (nonlinear_arith);
    assert(((rows * q) * group) / group == rows * q) by (nonlinear_arith)
        requires
            group >= 1,
    ;
}

// ---------------------------------------------------------------------------
// Checks
// ---------------------------------------------------------------------------

/// The input does not have `hidden` values.
pub open spec fn input_fault(action: Seq<char>, x_len: usize, hidden: usize) -> error::Fault {
    error::invalid(
        error::Source::Moe,
        action,
        quant::two_number_text("x len "@, x_len as nat, " != hidden "@, hidden as nat),
    )
}

/// Expert `e` is not among `count` experts.
pub open spec fn expert_index_fault(action: Seq<char>, e: usize, count: nat) -> error::Fault {
    error::invalid(
        error::Source::Moe,
        action,
        "expert index "@ + text::decimal(e as nat) + " out of bounds (len="@ + text::decimal(count)
            + ")"@,
    )
}

/// Tensor `name` has `len` bytes where `expected` are needed.
pub open spec fn tensor_size_fault(name: Seq<char>, len: nat, expected: nat) -> error::Fault {
    error::invalid(
        error::Source::Moe,
        "validate expert "@ + name + " size"@,
        name + " len "@ + text::decimal(len) + " != expected "@ + text::decimal(expected),
    )
}

fn raise_input(action: &str, x_len: usize, hidden: usize) -> (e: CudaError)
    ensures
        e@ == input_fault(action@, x_len, hidden),
{
    error::raise_invalid(
        error::Source::Moe,
        action,
        quant::two_number_message("x len ", x_len, " != hidden ", hidden),
    )
}

fn raise_expert_index(action: &str, e: usize, count: usize) -> (err: CudaError)
    ensures
        err@ == expert_index_fault(action@, e, count as nat),
{
    let mut m = quant::two_number_message("expert index ", e, " out of bounds (len=", count);
    m.append(")");
    error::raise_invalid(error::Source::Moe, action, m)
}

fn raise_tensor_size(name: &str, len: usize, expected: usize) -> (e: CudaError)
    ensures
        e@ == tensor_size_fault(name@, len as nat, expected as nat),
{
    let mut action = "validate expert ".to_owned();
    action.append(name);
    action.append(" size");
    let mut m = name.to_owned();
    m.append(" len ");
    text::push_usize(&mut m, len);
    m.append(" != expected ");
    text::push_usize(&mut m, expected);
    error::raise_invalid(error::Source::Moe, action.as_str(), m)
}

/// What is wrong with using expert `e` in `Q4_0`.
pub open spec fn q4_expert_fault(experts: Seq<ExpertWeights>, e: usize, dims: ExpertDims) -> Option<
    error::Fault,
> {
    let gate_up = dims.q4_gate_up_bytes();
    let down = dims.q4_down_bytes();
    if e >= experts.len() {
        Some(expert_index_fault("validate expert index"@, e, experts.len()))
    } else if experts[e as int].w_gate@.len() != gate_up {
        Some(tensor_size_fault("w_gate"@, experts[e as int].w_gate@.len(), gate_up))
    } else if experts[e as int].w_up@.len() != gate_up {
        Some(tensor_size_fault("w_up"@, experts[e as int].w_up@.len(), gate_up))
    } else if experts[e as int].w_down@.len() != down {
        Some(tensor_size_fault("w_down"@, experts[e as int].w_down@.len(), down))
    } else {
        None
    }
}

/// What is wrong with the first of the selected experts that cannot be used in `Q4_0`.
pub open spec fn q4_selection_fault(
    experts: Seq<ExpertWeights>,
    selected: Seq<usize>,
    dims: ExpertDims,
    from: int,
) -> Option<error::Fault>
    decreases selected.len() - from,
{
    if from < 0 || from >= selected.len() {
        None
    } else if q4_expert_fault(experts, selected[from], dims) is Some {
        q4_expert_fault(experts, selected[from], dims)
    } else {
        q4_selection_fault(experts, selected, dims, from + 1)
    }
}

/// What is wrong with running the selected experts in `Q4_0`.
pub open spec fn q4_run_fault(
    experts: Seq<ExpertWeights>,
    selected: Seq<usize>,
    x_len: usize,
    dims: ExpertDims,
) -> Option<error::Fault> {
    if x_len != dims.hidden {
        Some(
            input_fault("validate execute_selected_moe_cuda input x size"@, x_len, dims.hidden),
        )
    } else {
        q4_selection_fault(experts, selected, dims, 0)
    }
}

/// Checks what a run of the selected experts in `Q4_0` is given.
pub fn validate_selected_q4(
    experts: &[ExpertWeights],
    selected: &[usize],
    x_len: usize,
    dims: ExpertDims,
) -> (r: Result<(), CudaError>)
    requires
        dims.countable(),
    ensures
        match r {
            Ok(_) => q4_run_fault(experts@, selected@, x_len, dims) is None,
            Err(e) => q4_run_fault(experts@, selected@, x_len, dims) == Some(e@),
        },
{
    if x_len != dims.hidden {
        return Err(
            raise_input("validate execute_selected_moe_cuda input x size", x_len, dims.hidden),
        );
    }
    let gate_up: usize = q4_matrix_bytes(dims.intermediate, dims.hidden);
    let down: usize = q4_matrix_bytes(dims.out_dim, dims.intermediate);
    let mut i: usize = 0;
    while i < selected.len()
        invariant
            i <= selected@.len(),
            x_len == dims.hidden,
            gate_up == dims.q4_gate_up_bytes(),
            down == dims.q4_down_bytes(),
            q4_selection_fault(experts@, selected@, dims, 0) == q4_selection_fault(
                experts@,
                selected@,
                dims,
                i as int,
            ),
        decreases selected@.len() - i,
    {
        let e: usize = selected[i];
        if e >= experts.len() {
            return Err(raise_expert_index("validate expert index", e, experts.len()));
        }
        let expert = &experts[e];
        if expert.w_gate.len() != gate_up {
            return Err(raise_tensor_size("w_gate", expert.w_gate.len(), gate_up));
        }
        if expert.w_up.len() != gate_up {
            return Err(raise_tensor_size("w_up", expert.w_up.len(), gate_up));
        }
        if expert.w_down.len() != down {
            return Err(raise_tensor_size("w_down", expert.w_down.len(), down));
        }
        i = i + 1;
    }
    Ok(())
}

/// What is wrong with using 4-bit expert `e`.
pub open spec fn fp4_expert_fault(
    experts: Seq<DeepSeekFp4ExpertWeights>,
    e: usize,
    dims: ExpertDims,
) -> Option<error::Fault> {
    if e >= experts.len() {
        Some(expert_index_fault("validate expert index"@, e, experts.len()))
    } else {
        let x = experts[e as int];
        if x.gate_weight@.len() != dims.fp4_gate_up_weight_bytes() {
            Some(
                tensor_size_fault(
                    "gate_weight"@,
                    x.gate_weight@.len(),
                    dims.fp4_gate_up_weight_bytes(),
                ),
            )
        } else if x.gate_scale@.len() != dims.fp4_gate_up_scale_bytes() {
            Some(
                tensor_size_fault(
                    "gate_scale"@,
                    x.gate_scale@.len(),
                    dims.fp4_gate_up_scale_bytes(),
                ),
            )
        } else if x.up_weight@.len() != dims.fp4_gate_up_weight_bytes() {
            Some(
                tensor_size_fault(
                    "up_weight"@,
                    x.up_weight@.len(),
                    dims.fp4_gate_up_weight_bytes(),
                ),
            )
        } else if x.up_scale@.len() != dims.fp4_gate_up_scale_bytes() {
            Some(
                tensor_size_fault("up_scale"@, x.up_scale@.len(), dims.fp4_gate_up_scale_bytes()),
            )
        } else if x.down_weight@.len() != dims.fp4_down_weight_bytes() {
            Some(
                tensor_size_fault(
                    "down_weight"@,
                    x.down_weight@.len(),
                    dims.fp4_down_weight_bytes(),
                ),
            )
        } else if x.down_scale@.len() != dims.fp4_down_scale_bytes() {
            Some(
                tensor_size_fault("down_scale"@, x.down_scale@.len(), dims.fp4_down_scale_bytes()),
            )
        } else {
            None
        }
    }
}

/// What is wrong with the first of the selected 4-bit experts that cannot be used.
pub open spec fn fp4_selection_fault(
    experts: Seq<DeepSeekFp4ExpertWeights>,
    selected: Seq<usize>,
    dims: ExpertDims,
    from: int,
) -> Option<error::Fault>
    decreases selected.len() - from,
{
    if from < 0 || from >= selected.len() {
        None
    } else if fp4_expert_fault(experts, selected[from], dims) is Some {
        fp4_expert_fault(experts, selected[from], dims)
    } else {
        fp4_selection_fault(experts, selected, dims, from + 1)
    }
}

/// What is wrong with running the selected 4-bit experts.
pub open spec fn fp4_run_fault(
    experts: Seq<DeepSeekFp4ExpertWeights>,
    selected: Seq<usize>,
    x_len: usize,
    dims: ExpertDims,
) -> Option<error::Fault> {
    if x_len != dims.hidden {
        Some(
            input_fault(
                "validate execute_selected_moe_native_fp4_cuda input x size"@,
                x_len,
                dims.hidden,
            ),
        )
    } else {
        fp4_selection_fault(experts, selected, dims, 0)
    }
}

/// Checks what a run of the selected 4-bit experts is given.
pub fn validate_selected_fp4(
    experts: &[DeepSeekFp4ExpertWeights],
    selected: &[usize],
    x_len: usize,
    dims: ExpertDims,
) -> (r: Result<(), CudaError>)
    requires
        dims.countable(),
    ensures
        match r {
            Ok(_) => fp4_run_fault(experts@, selected@, x_len, dims) is None,
            Err(e) => fp4_run_fault(experts@, selected@, x_len, dims) == Some(e@),
        },
{
    if x_len != dims.hidden {
        return Err(
            raise_input(
                "validate execute_selected_moe_native_fp4_cuda input x size",
                x_len,
                dims.hidden,
            ),
        );
    }
    let gate_up_weight: usize = grouped_bytes(dims.intermediate, dims.hidden, 2);
    let gate_up_scale: usize = grouped_bytes(dims.intermediate, dims.hidden, 32);
    let down_weight: usize = grouped_bytes(dims.out_dim, dims.intermediate, 2);
    let down_scale: usize = grouped_bytes(dims.out_dim, dims.intermediate, 32);
    let mut i: usize = 0;
    while i < selected.len()
        invariant
            i <= selected@.len(),
            x_len == dims.hidden,
            gate_up_weight == dims.fp4_gate_up_weight_bytes(),
            gate_up_scale == dims.fp4_gate_up_scale_bytes(),
            down_weight == dims.fp4_down_weight_bytes(),
            down_scale == dims.fp4_down_scale_bytes(),
            fp4_selection_fault(experts@, selected@, dims, 0) == fp4_selection_fault(
                experts@,
                selected@,
                dims,
                i as int,
            ),
        decreases selected@.len() - i,
    {
        let e: usize = selected[i];
        if e >= experts.len() {
            return Err(raise_expert_index("validate expert index", e, experts.len()));
        }
        let x = &experts[e];
        if x.gate_weight.len() != gate_up_weight {
            return Err(raise_tensor_size("gate_weight", x.gate_weight.len(), gate_up_weight));
        }
        if x.gate_scale.len() != gate_up_scale {
            return Err(raise_tensor_size("gate_scale", x.gate_scale.len(), gate_up_scale));
        }
        if x.up_weight.len() != gate_up_weight {
            return Err(raise_tensor_size("up_weight", x.up_weight.len(), gate_up_weight));
        }
        if x.up_scale.len() != gate_up_scale {
            return Err(raise_tensor_size("up_scale", x.up_scale.len(), gate_up_scale));
        }
        if x.down_weight.len() != down_weight {
            return Err(raise_tensor_size("down_weight", x.down_weight.len(), down_weight));
        }
        if x.down_scale.len() != down_scale {
            return Err(raise_tensor_size("down_scale", x.down_scale.len(), down_scale));
        }
        i = i + 1;
    }
    Ok(())
}

/// Checks that expert `e` is among `count` experts, for the computation named by
/// `action`.
pub fn validate_expert_index(action: &str, e: usize, count: usize) -> (r: Result<(), CudaError>)
    ensures
        match r {
            Ok(_) => e < count,
            Err(err) => e >= count && err@ == expert_index_fault(action@, e, count as nat),
        },
{
    if e >= count {
        return Err(raise_expert_index(action, e, count));
    }
    Ok(())
}

// ---------------------------------------------------------------------------
// Laws
// ---------------------------------------------------------------------------

/// How many weights an expert has: two matrices from hidden to intermediate
/// elements, and one from there to the output.
pub open spec fn weight_count(dims: ExpertDims) -> int {
    2 * (dims.intermediate * dims.hidden) + dims.out_dim * dims.intermediate
}

/// In FP4 two weights share a byte, and thirty-two share a byte of scale.
pub proof fn fp4_bytes_count_weights(dims: ExpertDims)
    requires
        dims.hidden % 32 == 0,
        dims.intermediate % 32 == 0,
    ensures
        32 * dims.fp4_expert_bytes() == 17 * weight_count(dims),
        32 * dims.official_expert_bytes() == 17 * weight_count(dims),
{
    fp4_parts_are_balanced(dims);
    expert_bytes_agree(dims);
}

/// In Q4 thirty-two weights share a block of eighteen bytes.
pub proof fn q4_bytes_count_weights(dims: ExpertDims)
    requires
        dims.hidden % 32 == 0,
        dims.intermediate % 32 == 0,
    ensures
        32 * dims.q4_expert_bytes() == 18 * weight_count(dims),
{
    quant::matrices_are_made_of_blocks(QuantFormat::Q4_0, dims.intermediate, dims.hidden);
    quant::matrices_are_made_of_blocks(QuantFormat::Q4_0, dims.out_dim, dims.intermediate);
    let (a, b) = (dims.intermediate * dims.hidden, dims.out_dim * dims.intermediate);
    assert(32 * dims.q4_gate_up_bytes() == a * 18);
    assert(32 * dims.q4_down_bytes() == b * 18);
}

/// In a shared expert a weight has a byte, and 128 share a byte of scale.
pub proof fn shared_bytes_count_weights(dims: ExpertDims)
    requires
        dims.intermediate % 128 == 0,
    ensures
        128 * dims.shared_expert_bytes() == 129 * weight_count(dims),
{
    let i = dims.intermediate as int / 128;
    let (h, o) = (dims.hidden as int, dims.out_dim as int);
    assert(dims.intermediate == 128 * i);
    assert(dims.intermediate * dims.hidden == 128 * (i * h)) by (nonlinear_arith)
        requires
            dims.intermediate == 128 * i,
            h == dims.hidden,
    ;
    assert(dims.out_dim * dims.intermediate == 128 * (o * i)) by (nonlinear_arith)
        requires
            dims.intermediate == 128 * i,
            o == dims.out_dim,
    ;
}

/// The three parts of an expert in FP4: gate and up are alike, and each part has
/// one byte of scales for sixteen of weights.
pub proof fn fp4_parts_are_balanced(dims: ExpertDims)
    requires
        dims.hidden % 32 == 0,
        dims.intermediate % 32 == 0,
    ensures
        dims.fp4_gate_up_weight_bytes() == 16 * dims.fp4_gate_up_scale_bytes(),
        dims.fp4_down_weight_bytes() == 16 * dims.fp4_down_scale_bytes(),
        32 * dims.fp4_gate_up_scale_bytes() == dims.intermediate * dims.hidden,
        32 * dims.fp4_down_scale_bytes() == dims.out_dim * dims.intermediate,
{
    let (h, i) = (dims.hidden as int / 32, dims.intermediate as int / 32);
    let (n, o) = (dims.intermediate as int, dims.out_dim as int);
    assert(dims.hidden == 32 * h && dims.intermediate == 32 * i);
    assert(dims.hidden as int / 2 == 16 * h && dims.intermediate as int / 2 == 16 * i);
    assert(n * (16 * h) == 16 * (n * h)) by (nonlinear_arith);
    assert(n * (32 * h) == 32 * (n * h)) by (nonlinear_arith);
    assert(o * (16 * i) == 16 * (o * i)) by (nonlinear_arith);
    assert(o * (32 * i) == 32 * (o * i)) by (nonlinear_arith);
}

/// The tensors of a Q4 expert have their sizes.
pub open spec fn q4_fits(x: ExpertWeights, dims: ExpertDims) -> bool {
    x.w_gate@.len() == dims.q4_gate_up_bytes() && x.w_up@.len() == dims.q4_gate_up_bytes()
        && x.w_down@.len() == dims.q4_down_bytes()
}

/// A run in Q4 is accepted exactly when the input has one number for each hidden
/// element and every selected expert is there with tensors of the right sizes.
pub proof fn q4_runs_are_accepted(
    experts: Seq<ExpertWeights>,
    selected: Seq<usize>,
    x_len: usize,
    dims: ExpertDims,
)
    ensures
        q4_run_fault(experts, selected, x_len, dims) is None <==> x_len == dims.hidden && forall|
            i: int,
        |
            0 <= i < selected.len() ==> (#[trigger] selected[i]) < experts.len() && q4_fits(
                experts[selected[i] as int],
                dims,
            ),
{
    lemma_q4_selection(experts, selected, dims, 0);
}

proof fn lemma_q4_selection(
    experts: Seq<ExpertWeights>,
    selected: Seq<usize>,
    dims: ExpertDims,
    from: int,
)
    requires
        0 <= from <= selected.len(),
    ensures
        q4_selection_fault(experts, selected, dims, from) is None <==> forall|i: int|
            from <= i < selected.len() ==> (#[trigger] selected[i]) < experts.len() && q4_fits(
                experts[selected[i] as int],
                dims,
            ),
    decreases selected.len() - from,
{
    if from < selected.len() {
        lemma_q4_selection(experts, selected, dims, from + 1);
        assert(q4_expert_fault(experts, selected[from], dims) is None <==> selected[from]
            < experts.len() && q4_fits(experts[selected[from] as int], dims));
    }
}

/// The tensors of an FP4 expert have their sizes.
pub open spec fn fp4_fits(x: DeepSeekFp4ExpertWeights, dims: ExpertDims) -> bool {
    &&& x.gate_weight@.len() == dims.fp4_gate_up_weight_bytes()
    &&& x.up_weight@.len() == dims.fp4_gate_up_weight_bytes()
    &&& x.down_weight@.len() == dims.fp4_down_weight_bytes()
    &&& x.gate_scale@.len() == dims.fp4_gate_up_scale_bytes()
    &&& x.up_scale@.len() == dims.fp4_gate_up_scale_bytes()
    &&& x.down_scale@.len() == dims.fp4_down_scale_bytes()
}

/// A run in FP4 is accepted exactly when the input has one number for each hidden
/// element and every selected expert is there with tensors of the right sizes.
pub proof fn fp4_runs_are_accepted(
    experts: Seq<DeepSeekFp4ExpertWeights>,
    selected: Seq<usize>,
    x_len: usize,
    dims: ExpertDims,
)
    ensures
        fp4_run_fault(experts, selected, x_len, dims) is None <==> x_len == dims.hidden && forall|
            i: int,
        |
            0 <= i < selected.len() ==> (#[trigger] selected[i]) < experts.len() && fp4_fits(
                experts[selected[i] as int],
                dims,
            ),
{
    lemma_fp4_selection(experts, selected, dims, 0);
}

proof fn lemma_fp4_selection(
    experts: Seq<DeepSeekFp4ExpertWeights>,
    selected: Seq<usize>,
    dims: ExpertDims,
    from: int,
)
    requires
        0 <= from <= selected.len(),
    ensures
        fp4_selection_fault(experts, selected, dims, from) is None <==> forall|i: int|
            from <= i < selected.len() ==> (#[trigger] selected[i]) < experts.len() && fp4_fits(
                experts[selected[i] as int],
                dims,
            ),
    decreases selected.len() - from,
{
    if from < selected.len() {
        lemma_fp4_selection(experts, selected, dims, from + 1);
        assert(fp4_expert_fault(experts, selected[from], dims) is None <==> selected[from]
            < experts.len() && fp4_fits(experts[selected[from] as int], dims));
    }
}

/// What is said of an expert's sizes names what is there first and what is needed last.
pub proof fn sizes_are_named(
    action: Seq<char>,
    name: Seq<char>,
    len: usize,
    expected: nat,
)
    ensures
        ({
            let m = input_fault(action, len, expected as usize).message;
            expected <= usize::MAX ==> text::occurs_at(m, "x len "@ + text::decimal(len as nat), 0)
                && text::ends_with_text(m, " != hidden "@ + text::decimal(expected))
        }),
        ({
            let m = tensor_size_fault(name, len as nat, expected).message;
            &&& text::occurs_at(m, name + " len "@ + text::decimal(len as nat), 0)
            &&& text::ends_with_text(m, " != expected "@ + text::decimal(expected))
        }),
        ({
            let m = expert_index_fault(action, len, expected).message;
            &&& text::occurs_at(m, "expert index "@ + text::decimal(len as nat), 0)
            &&& text::ends_with_text(m, "(len="@ + text::decimal(expected) + ")"@)
        }),
{
    quant::two_numbers_are_told("x len "@, len as nat, " != hidden "@, expected);
    let (d, e) = (text::decimal(len as nat), text::decimal(expected));
    let s = tensor_size_fault(name, len as nat, expected).message;
    assert(s == (name + " len "@ + d) + (" != expected "@ + e));
    assert(s.subrange(0, (name + " len "@ + d).len() as int) == name + " len "@ + d);
    assert(s.subrange(s.len() - (" != expected "@ + e).len(), s.len() as int) == " != expected "@
        + e);
    let t = expert_index_fault(action, len, expected).message;
    reveal_strlit(" out of bounds (len=");
    reveal_strlit("(len=");
    let mid = " out of bounds (len="@;
    assert(mid.subrange(15, 20) == "(len="@);
    let tail = "(len="@ + e + ")"@;
    assert(t.subrange(0, ("expert index "@ + d).len() as int) == "expert index "@ + d);
    assert(t == "expert index "@ + d + mid.subrange(0, 15) + tail);
    assert(t.subrange(t.len() - tail.len(), t.len() as int) == tail);
}

} // verus!
