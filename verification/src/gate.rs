//! Choosing the experts of a layer: by hand, by gating scores, or by a
//! table of tokens.
//!
//! Scores come as bit patterns of single-precision numbers.

use crate::error;
use crate::error::CudaError;
use crate::ieee;
use crate::quant;
use crate::rank;
use crate::text;
use vstd::arithmetic::div_mod::*;
use vstd::arithmetic::power2::*;
use vstd::prelude::*;
use vstd::string::*;

verus! {

/// How gating turns logits into scores.
#[derive(Debug, Clone, Copy, PartialEq, Eq, Structural)]
pub enum ScoreFunc {
    Softmax,
    Sigmoid,
    SqrtSoftplus,
}

impl ScoreFunc {
    /// Whether gating divides the weights of the selected experts by their sum, before
    /// it scales them. It does so whatever the scores are made by, so that the weights
    /// always sum to the scale.
    pub fn normalizes(&self) -> (yes: bool)
        ensures
            yes,
    {
        match self {
            ScoreFunc::Softmax => true,
            ScoreFunc::Sigmoid => true,
            ScoreFunc::SqrtSoftplus => true,
        }
    }
}

/// Layers that pick experts by token, from the first one on.
pub const HASH_LAYERS: usize = 3;

/// Whether a layer picks its experts by token.
pub fn is_hash_layer(layer: usize) -> (yes: bool)
    ensures
        yes == (layer < HASH_LAYERS),
{
    layer < HASH_LAYERS
}

// ---------------------------------------------------------------------------
// Experts by hand
// ---------------------------------------------------------------------------

/// The first id that is out of range.
pub open spec fn ids_fault(ids: Seq<usize>, num_experts: usize, from: int) -> Option<error::Fault>
    decreases ids.len() - from,
{
    if from < 0 || from >= ids.len() {
        None
    } else if ids[from] >= num_experts {
        Some(
            error::invalid(
                error::Source::Gate,
                "validate expert ids"@,
                quant::two_number_text(
                    "expert id "@,
                    ids[from] as nat,
                    " out of range: num_experts="@,
                    num_experts as nat,
                ),
            ),
        )
    } else {
        ids_fault(ids, num_experts, from + 1)
    }
}

/// `prefix`, the expected number twice and the number at hand, as one text.
pub open spec fn count_text(what: Seq<char>, top_k: nat, got: nat) -> Seq<char> {
    "expected "@ + text::decimal(top_k) + what + text::decimal(top_k) + "), got "@ + text::decimal(got)
}

fn count_message(what: &str, top_k: usize, got: usize) -> (s: String)
    ensures
        s@ == count_text(what@, top_k as nat, got as nat),
{
    let mut s = "expected ".to_owned();
    text::push_usize(&mut s, top_k);
    s.append(what);
    text::push_usize(&mut s, top_k);
    s.append("), got ");
    text::push_usize(&mut s, got);
    s
}

/// What is wrong with experts chosen by hand.
pub open spec fn manual_ids_fault(ids: Seq<usize>, num_experts: usize, top_k: usize) -> Option<
    error::Fault,
> {
    if ids.len() == 0 {
        Some(
            error::invalid(
                error::Source::Gate,
                "validate expert ids"@,
                "expert-ids must not be empty"@,
            ),
        )
    } else if ids.len() != top_k {
        Some(
            error::invalid(
                error::Source::Gate,
                "validate expert ids"@,
                count_text(" expert ids (top_k="@, top_k as nat, ids.len()),
            ),
        )
    } else {
        ids_fault(ids, num_experts, 0)
    }
}

/// Checks experts chosen by hand: as many as the model routes to, each of them
/// an expert of the model.
pub fn validate_manual_expert_ids(expert_ids: &[usize], num_experts: usize, top_k: usize) -> (r:
    Result<(), CudaError>)
    ensures
        match r {
            Ok(_) => manual_ids_fault(expert_ids@, num_experts, top_k) is None,
            Err(e) => manual_ids_fault(expert_ids@, num_experts, top_k) == Some(e@),
        },
{
    let n: usize = expert_ids.len();
    if n == 0 {
        return Err(
            error::raise_invalid(
                error::Source::Gate,
                "validate expert ids",
                "expert-ids must not be empty".to_owned(),
            ),
        );
    }
    if n != top_k {
        return Err(
            error::raise_invalid(
                error::Source::Gate,
                "validate expert ids",
                count_message(" expert ids (top_k=", top_k, n),
            ),
        );
    }
    let mut i: usize = 0;
    while i < n
        invariant
            i <= n,
            n == expert_ids@.len(),
            n == top_k,
            n > 0,
            ids_fault(expert_ids@, num_experts, 0) == ids_fault(expert_ids@, num_experts, i as int),
        decreases n - i,
    {
        if expert_ids[i] >= num_experts {
            return Err(
                error::raise_invalid(
                    error::Source::Gate,
                    "validate expert ids",
                    quant::two_number_message(
                        "expert id ",
                        expert_ids[i],
                        " out of range: num_experts=",
                        num_experts,
                    ),
                ),
            );
        }
        i = i + 1;
    }
    Ok(())
}

/// Experts chosen by hand are accepted exactly when there are `top_k` of them, at
/// least one, and each is an expert of the model.
pub proof fn manual_ids_accepted(ids: Seq<usize>, num_experts: usize, top_k: usize)
    ensures
        manual_ids_fault(ids, num_experts, top_k) is None <==> (ids.len() > 0 && ids.len() == top_k
            && forall|i: int| 0 <= i < ids.len() ==> #[trigger] ids[i] < num_experts),
{
    lemma_ids_accepted(ids, num_experts, 0);
}

proof fn lemma_ids_accepted(ids: Seq<usize>, num_experts: usize, from: int)
    requires
        0 <= from <= ids.len(),
    ensures
        ids_fault(ids, num_experts, from) is None <==> (forall|i: int|
            from <= i < ids.len() ==> #[trigger] ids[i] < num_experts),
    decreases ids.len() - from,
{
    if from < ids.len() && ids[from] < num_experts {
        lemma_ids_accepted(ids, num_experts, from + 1);
    } else if from < ids.len() {
        assert(!(ids[from] < num_experts));
    }
}

/// The bit pattern of the largest distance from one that a sum of weights may
/// have: a hundredth.
pub const WEIGHT_TOLERANCE: u32 = 0x3c23_d70a;

/// What is wrong with weights given by hand. `deviation` is the distance of their
/// sum from one, and `sum` is the sum as text.
pub open spec fn manual_weights_fault(
    count: usize,
    top_k: usize,
    deviation: u32,
    sum: Seq<char>,
) -> Option<error::Fault> {
    if count != top_k {
        Some(
            error::invalid(
                error::Source::Gate,
                "validate expert weights"@,
                count_text(" expert weights (top_k="@, top_k as nat, count as nat),
            ),
        )
    } else if ieee::less32(WEIGHT_TOLERANCE, deviation) {
        Some(
            error::invalid(
                error::Source::Gate,
                "validate expert weights"@,
                "expert weights sum to "@ + sum + ", expected ~1.0"@,
            ),
        )
    } else {
        None
    }
}

/// Checks weights given by hand: as many as the model routes to, with a sum near
/// one. `deviation` is the distance of their sum from one, and `sum` is the sum as
/// text.
pub fn validate_manual_expert_weights(count: usize, top_k: usize, deviation: u32, sum: &str) -> (r:
    Result<(), CudaError>)
    ensures
        match r {
            Ok(_) => manual_weights_fault(count, top_k, deviation, sum@) is None,
            Err(e) => manual_weights_fault(count, top_k, deviation, sum@) == Some(e@),
        },
{
    if count != top_k {
        return Err(
            error::raise_invalid(
                error::Source::Gate,
                "validate expert weights",
                count_message(" expert weights (top_k=", top_k, count),
            ),
        );
    }
    if ieee::is_less32(WEIGHT_TOLERANCE, deviation) {
        let mut m = "expert weights sum to ".to_owned();
        m.append(sum);
        m.append(", expected ~1.0");
        return Err(error::raise_invalid(error::Source::Gate, "validate expert weights", m));
    }
    Ok(())
}

// ---------------------------------------------------------------------------
// Element types
// ---------------------------------------------------------------------------

/// The upper case of a text. Case mapping follows Unicode tables; it is a
/// function of the text alone.
pub uninterp spec fn uppercase(s: Seq<char>) -> Seq<char>;

/// `str::to_uppercase`: the text in upper case. Which characters have an upper
/// case, and how long it is, is not stated.
#[verifier::external_body]
fn to_upper(s: &str) -> (u: String)
    ensures
        u@ == uppercase(s@),
{
    s.to_uppercase()
}

/// The element type, in upper case, is one that can be read.
pub open spec fn readable_dtype(upper: Seq<char>) -> bool {
    upper == "F32"@ || upper == "FLOAT32"@ || upper == "F16"@ || upper == "FLOAT16"@ || upper
        == "BF16"@ || upper == "BFLOAT16"@
}

/// The element type, in upper case, cannot be read.
pub open spec fn dtype_fault(upper: Seq<char>) -> Option<error::Fault> {
    if readable_dtype(upper) {
        None
    } else {
        Some(
            error::unsupported(
                error::Source::Gate,
                "validate dtype"@,
                "unsupported dtype '"@ + upper + "': only F32, F16, BF16 are supported"@,
            ),
        )
    }
}

/// Checks an element type that is written in upper case.
pub fn validate_upper_dtype(upper: &str) -> (r: Result<(), CudaError>)
    ensures
        match r {
            Ok(_) => dtype_fault(upper@) is None,
            Err(e) => dtype_fault(upper@) == Some(e@),
        },
{
    if text::text_eq(upper, "F32") || text::text_eq(upper, "FLOAT32") || text::text_eq(upper, "F16")
        || text::text_eq(upper, "FLOAT16") || text::text_eq(upper, "BF16") || text::text_eq(
        upper,
        "BFLOAT16",
    ) {
        return Ok(());
    }
    let mut m = "unsupported dtype '".to_owned();
    m.append(upper);
    m.append("': only F32, F16, BF16 are supported");
    Err(error::raise_unsupported(error::Source::Gate, "validate dtype", m))
}

/// Checks that tensors of an element type can be read, whatever the case it is
/// written in.
pub fn validate_dtype(dtype: &str) -> (r: Result<(), CudaError>)
    ensures
        match r {
            Ok(_) => dtype_fault(uppercase(dtype@)) is None,
            Err(e) => dtype_fault(uppercase(dtype@)) == Some(e@),
        },
{
    let upper = to_upper(dtype);
    validate_upper_dtype(upper.as_str())
}

// ---------------------------------------------------------------------------
// Experts by score
// ---------------------------------------------------------------------------

/// Router weights are not a matrix of the experts and the hidden size.
pub open spec fn router_len_fault(len: usize, num_experts: usize, hidden_size: usize) -> Option<
    error::Fault,
> {
    if len != num_experts * hidden_size {
        Some(
            error::invalid(
                error::Source::Gate,
                "cpu_router"@,
                "router weights len "@ + text::decimal(len as nat) + " != num_experts "@
                    + text::decimal(num_experts as nat) + " * hidden_size "@ + text::decimal(
                    hidden_size as nat,
                ),
            ),
        )
    } else {
        None
    }
}

/// Checks that router weights are a matrix of the experts and the hidden size.
pub fn validate_router_len(len: usize, num_experts: usize, hidden_size: usize) -> (r: Result<
    (),
    CudaError,
>)
    requires
        num_experts * hidden_size <= usize::MAX,
    ensures
        match r {
            Ok(_) => router_len_fault(len, num_experts, hidden_size) is None,
            Err(e) => router_len_fault(len, num_experts, hidden_size) == Some(e@),
        },
{
    if len != num_experts * hidden_size {
        let mut m = "router weights len ".to_owned();
        text::push_usize(&mut m, len);
        m.append(" != num_experts ");
        text::push_usize(&mut m, num_experts);
        m.append(" * hidden_size ");
        text::push_usize(&mut m, hidden_size);
        return Err(error::raise_invalid(error::Source::Gate, "cpu_router", m));
    }
    Ok(())
}

/// A router tensor does not hold one number for each expert and hidden element.
pub open spec fn router_elements_fault(name: Seq<char>, len: usize, expected: nat) -> Option<
    error::Fault,
> {
    if len != expected {
        Some(
            error::invalid(
                error::Source::Gate,
                "validate router tensor"@,
                "router tensor '"@ + name + "' has "@ + text::decimal(len as nat)
                    + " elements, expected "@ + text::decimal(expected),
            ),
        )
    } else {
        None
    }
}

/// Checks that a router tensor holds one number for each expert and hidden
/// element.
pub fn validate_router_elements(name: &str, len: usize, num_experts: usize, hidden_size: usize) -> (r:
    Result<(), CudaError>)
    requires
        num_experts * hidden_size <= usize::MAX,
    ensures
        match r {
            Ok(_) => router_elements_fault(
                name@,
                len,
                (num_experts * hidden_size) as nat,
            ) is None,
            Err(e) => router_elements_fault(name@, len, (num_experts * hidden_size) as nat) == Some(
                e@,
            ),
        },
{
    let expected: usize = num_experts * hidden_size;
    if len != expected {
        let mut m = "router tensor '".to_owned();
        m.append(name);
        m.append("' has ");
        text::push_usize(&mut m, len);
        m.append(" elements, expected ");
        text::push_usize(&mut m, expected);
        return Err(error::raise_invalid(error::Source::Gate, "validate router tensor", m));
    }
    Ok(())
}

// ---------------------------------------------------------------------------
// Experts by token
// ---------------------------------------------------------------------------

/// The number that eight bytes stand for, the lowest first.
pub open spec fn word_of(bytes: Seq<u8>, at: int) -> int {
    bytes[at] + 0x100 * bytes[at + 1] + 0x1_0000 * bytes[at + 2] + 0x100_0000 * bytes[at + 3]
        + 0x1_0000_0000 * bytes[at + 4] + 0x100_0000_0000 * bytes[at + 5] + 0x1_0000_0000_0000
        * bytes[at + 6] + 0x100_0000_0000_0000 * bytes[at + 7]
}

/// The signed number that eight bytes stand for, the lowest first.
pub open spec fn signed_word_of(bytes: Seq<u8>, at: int) -> int {
    let w = word_of(bytes, at);
    if w < 0x8000_0000_0000_0000 {
        w
    } else {
        w - 0x1_0000_0000_0000_0000
    }
}

/// The signed 64-bit numbers in a table of bytes. Bytes beyond the last whole
/// number are left out.
pub fn decode_table(bytes: &[u8]) -> (table: Vec<i64>)
    ensures
        table@.len() == bytes@.len() / 8,
        forall|i: int|
            0 <= i < table@.len() ==> #[trigger] table@[i] == signed_word_of(bytes@, 8 * i),
{
    let n: usize = bytes.len();
    let count: usize = n / 8;
    let mut table: Vec<i64> = Vec::new();
    let mut i: usize = 0;
    while i < count
        invariant
            i <= count,
            n == bytes@.len(),
            count == n / 8,
            table@.len() == i,
            forall|j: int| 0 <= j < i ==> #[trigger] table@[j] == signed_word_of(bytes@, 8 * j),
        decreases count - i,
    {
        let at: usize = 8 * i;
        let low: u64 = bytes[at] as u64 + 0x100 * (bytes[at + 1] as u64) + 0x1_0000 * (bytes[at
            + 2] as u64) + 0x100_0000 * (bytes[at + 3] as u64);
        let high: u64 = bytes[at + 4] as u64 + 0x100 * (bytes[at + 5] as u64) + 0x1_0000 * (bytes[at
            + 6] as u64) + 0x100_0000 * (bytes[at + 7] as u64);
        let word: u64 = low + 0x1_0000_0000 * high;
        let value: i64 = if word < 0x8000_0000_0000_0000 {
            word as i64
        } else {
            (word - 0x8000_0000_0000_0000) as i64 + i64::MIN
        };
        assert(word == word_of(bytes@, 8 * i as int));
        table.push(value);
        i = i + 1;
    }
    table
}

/// What is wrong with looking up the experts of a token.
pub open spec fn token_fault(table_len: nat, input_id: Option<usize>, top_k: usize) -> Option<
    error::Fault,
> {
    match input_id {
        None => Some(
            error::invalid(
                error::Source::Gate,
                "cpu_gate_ref hash layer"@,
                "input_id is required for hash layers"@,
            ),
        ),
        Some(id) => if id >= table_len / (top_k as nat) {
            Some(
                error::invalid(
                    error::Source::Gate,
                    "cpu_gate_ref hash layer"@,
                    "input_id "@ + text::decimal(id as nat)
                        + " out of range for tid2eid (vocab="@ + text::decimal(
                        table_len / (top_k as nat),
                    ) + ")"@,
                ),
            )
        } else {
            None
        },
    }
}

/// The row that the table has for a token names experts of the model.
pub open spec fn row_in_range(
    table: Seq<i64>,
    input_id: Option<usize>,
    top_k: usize,
    n: usize,
) -> bool {
    token_fault(table.len(), input_id, top_k) is None ==> forall|j: int|
        input_id->0 * top_k <= j < input_id->0 * top_k + top_k ==> 0 <= #[trigger] table[j] < n
}

/// The experts that the table has for a token.
pub fn token_experts(table: &[i64], input_id: Option<usize>, top_k: usize, num_experts: usize) -> (r:
    Result<Vec<usize>, CudaError>)
    requires
        input_id is Some ==> top_k > 0,
        row_in_range(table@, input_id, top_k, num_experts),
    ensures
        match r {
            Ok(ids) => {
                &&& token_fault(table@.len(), input_id, top_k) is None
                &&& ids@.len() == top_k
                &&& forall|k: int|
                    0 <= k < top_k ==> #[trigger] ids@[k] == table@[input_id->0 * top_k + k]
                &&& forall|k: int| 0 <= k < top_k ==> #[trigger] ids@[k] < num_experts
            },
            Err(e) => token_fault(table@.len(), input_id, top_k) == Some(e@),
        },
{
    let n: usize = table.len();
    let token: usize = match input_id {
        Some(id) => id,
        None => {
            return Err(
                error::raise_invalid(
                    error::Source::Gate,
                    "cpu_gate_ref hash layer",
                    "input_id is required for hash layers".to_owned(),
                ),
            );
        },
    };
    let vocab: usize = n / top_k;
    if token >= vocab {
        let mut m = "input_id ".to_owned();
        text::push_usize(&mut m, token);
        m.append(" out of range for tid2eid (vocab=");
        text::push_usize(&mut m, vocab);
        m.append(")");
        return Err(error::raise_invalid(error::Source::Gate, "cpu_gate_ref hash layer", m));
    }
    proof {
        lemma_fundamental_div_mod(n as int, top_k as int);
        assert((token + 1) * top_k <= vocab * top_k) by (nonlinear_arith)
            requires
                token + 1 <= vocab,
                top_k > 0,
        ;
        assert((token + 1) * top_k == token * top_k + top_k) by (nonlinear_arith);
        assert(top_k * vocab == vocab * top_k) by (nonlinear_arith);
    }
    let base: usize = token * top_k;
    let mut ids: Vec<usize> = Vec::new();
    let mut k: usize = 0;
    while k < top_k
        invariant
            k <= top_k,
            base == token * top_k,
            base + top_k <= table@.len(),
            table@.len() <= usize::MAX,
            input_id == Some(token),
            token_fault(table@.len(), input_id, top_k) is None,
            row_in_range(table@, input_id, top_k, num_experts),
            ids@.len() == k,
            forall|j: int| 0 <= j < k ==> #[trigger] ids@[j] == table@[base + j],
            forall|j: int| 0 <= j < k ==> #[trigger] ids@[j] < num_experts,
        decreases top_k - k,
    {
        assert(0 <= table@[base + k] < num_experts);
        ids.push(table[base + k] as usize);
        k = k + 1;
    }
    Ok(ids)
}

/// The selection by gating: by token where there is a table, else the largest
/// selection scores.
pub fn select_experts(
    table: Option<&[i64]>,
    input_id: Option<usize>,
    selection_scores: &[u32],
    top_k: usize,
) -> (r: Result<Vec<usize>, CudaError>)
    requires
        match table {
            Some(t) => {
                &&& input_id is Some ==> top_k > 0
                &&& selection_scores@.len() <= usize::MAX
                &&& row_in_range(t@, input_id, top_k, selection_scores@.len() as usize)
            },
            None => rank::all_numbers32(selection_scores@),
        },
    ensures
        match (table, r) {
            (Some(t), Ok(ids)) => {
                &&& token_fault(t@.len(), input_id, top_k) is None
                &&& ids@.len() == top_k
                &&& forall|k: int|
                    0 <= k < top_k ==> #[trigger] ids@[k] == t@[input_id->0 * top_k + k]
            },
            (Some(t), Err(e)) => token_fault(t@.len(), input_id, top_k) == Some(e@),
            (None, Ok(ids)) => rank::is_top(ids@, selection_scores@, top_k as nat),
            (None, Err(_)) => false,
        },
        r matches Ok(ids) ==> forall|k: int|
            0 <= k < ids@.len() ==> #[trigger] ids@[k] < selection_scores@.len(),
{
    match table {
        Some(t) => token_experts(t, input_id, top_k, selection_scores.len()),
        None => Ok(rank::top_k_ids(selection_scores, top_k)),
    }
}

// ---------------------------------------------------------------------------
// Reproducible input
// ---------------------------------------------------------------------------

/// The state that follows a state of the generator.
pub open spec fn next_state(state: u64) -> u64 {
    ((state * 6364136223846793005 + 1) % 0x1_0000_0000_0000_0000) as u64
}

/// The state after `n` steps.
pub open spec fn state_after(seed: u64, n: nat) -> u64
    decreases n,
{
    if n == 0 {
        seed
    } else {
        next_state(state_after(seed, (n - 1) as nat))
    }
}

/// The odd 32-bit number drawn from a state: its high half, with the lowest bit
/// set.
pub open spec fn drawn(state: u64) -> int {
    let high = state as int / 0x1_0000_0000;
    if high % 2 == 0 {
        high + 1
    } else {
        high
    }
}

/// The numbers drawn from a seed: one for each element of a sample.
pub fn seeded_bits(len: usize, seed: u64) -> (bits: Vec<u32>)
    ensures
        bits@.len() == len,
        forall|i: int|
            0 <= i < len ==> #[trigger] bits@[i] == drawn(state_after(seed, (i + 1) as nat)),
{
    let mut state: u64 = seed;
    let mut bits: Vec<u32> = Vec::new();
    let mut i: usize = 0;
    while i < len
        invariant
            i <= len,
            bits@.len() == i,
            state == state_after(seed, i as nat),
            forall|j: int|
                0 <= j < i ==> #[trigger] bits@[j] == drawn(state_after(seed, (j + 1) as nat)),
        decreases len - i,
    {
        let ghost was = state;
        state = state.wrapping_mul(6364136223846793005).wrapping_add(1);
        proof {
            let m = 0x1_0000_0000_0000_0000int;
            lemma_add_mod_noop(was * 6364136223846793005, 1, m);
            lemma_small_mod(1, m as nat);
            assert(state == next_state(was));
        }
        let high: u32 = (state / 0x1_0000_0000) as u32;
        bits.push(if high % 2 == 0 {
            high + 1
        } else {
            high
        });
        i = i + 1;
    }
    bits
}

// ---------------------------------------------------------------------------
// Laws
// ---------------------------------------------------------------------------

/// Weights given by hand are accepted exactly when there is one for each expert
/// and their sum is not more than a hundredth off one.
pub proof fn manual_weights_accepted(count: usize, top_k: usize, deviation: u32, sum: Seq<char>)
    ensures
        manual_weights_fault(count, top_k, deviation, sum) is None <==> count == top_k
            && !ieee::less32(WEIGHT_TOLERANCE, deviation),
        ieee::nearest32(WEIGHT_TOLERANCE, 1, 100),
{
    lemma2_to64();
}

/// Router weights are accepted exactly when there is one for each expert and
/// hidden element.
pub proof fn router_weights_accepted(
    name: Seq<char>,
    len: usize,
    num_experts: usize,
    hidden_size: usize,
)
    ensures
        router_len_fault(len, num_experts, hidden_size) is None <==> len == num_experts
            * hidden_size,
        router_elements_fault(name, len, (num_experts * hidden_size) as nat) is None <==> len
            == num_experts * hidden_size,
{
    assert(0 <= num_experts * hidden_size) by (nonlinear_arith)
        requires
            0 <= num_experts,
            0 <= hidden_size,
    ;
}

/// A token is looked up exactly when it is given and its whole row stands in the
/// table.
pub proof fn tokens_have_rows(table_len: nat, input_id: Option<usize>, top_k: usize)
    requires
        top_k > 0,
    ensures
        token_fault(table_len, input_id, top_k) is None <==> (input_id is Some && (input_id->0 + 1)
            * top_k <= table_len),
{
    if let Some(id) = input_id {
        let k = top_k as int;
        let rows = table_len as int / k;
        lemma_fundamental_div_mod(table_len as int, k);
        lemma_mod_bound(table_len as int, k);
        if id < rows {
            assert((id + 1) * k <= rows * k) by (nonlinear_arith)
                requires
                    id + 1 <= rows,
                    k > 0,
            ;
            assert(k * rows == rows * k) by (nonlinear_arith);
        } else {
            assert((id + 1) * k >= rows * k + k) by (nonlinear_arith)
                requires
                    id >= rows,
                    k > 0,
            ;
            assert(k * rows == rows * k) by (nonlinear_arith);
        }
    }
}

/// Each byte of a table's number can be read back from it: the first one is the
/// lowest. The number is negative exactly where the highest bit is set.
pub proof fn words_hold_their_bytes(bytes: Seq<u8>, at: int)
    ensures
        word_of(bytes, at) % 0x100 == bytes[at],
        word_of(bytes, at) / 0x100 % 0x100 == bytes[at + 1],
        word_of(bytes, at) / 0x1_0000 % 0x100 == bytes[at + 2],
        word_of(bytes, at) / 0x100_0000 % 0x100 == bytes[at + 3],
        word_of(bytes, at) / 0x1_0000_0000 % 0x100 == bytes[at + 4],
        word_of(bytes, at) / 0x100_0000_0000 % 0x100 == bytes[at + 5],
        word_of(bytes, at) / 0x1_0000_0000_0000 % 0x100 == bytes[at + 6],
        word_of(bytes, at) / 0x100_0000_0000_0000 == bytes[at + 7],
        signed_word_of(bytes, at) < 0 <==> bytes[at + 7] >= 0x80,
        (signed_word_of(bytes, at) - word_of(bytes, at)) % 0x1_0000_0000_0000_0000 == 0,
{
    let w = word_of(bytes, at);
    let w7 = bytes[at + 7] as int;
    let w6 = bytes[at + 6] + 0x100 * w7;
    let w5 = bytes[at + 5] + 0x100 * w6;
    let w4 = bytes[at + 4] + 0x100 * w5;
    let w3 = bytes[at + 3] + 0x100 * w4;
    let w2 = bytes[at + 2] + 0x100 * w3;
    let w1 = bytes[at + 1] + 0x100 * w2;
    assert(w == bytes[at] + 0x100 * w1);
    lemma_byte_on_top(w, 0x100, bytes[at] as int, w1);
    lemma_byte_on_top(w, 0x1_0000, bytes[at] + 0x100 * bytes[at + 1], w2);
    lemma_byte_on_top(
        w,
        0x100_0000,
        bytes[at] + 0x100 * bytes[at + 1] + 0x1_0000 * bytes[at + 2],
        w3,
    );
    let low = bytes[at] + 0x100 * bytes[at + 1] + 0x1_0000 * bytes[at + 2] + 0x100_0000 * bytes[at
        + 3];
    lemma_byte_on_top(w, 0x1_0000_0000, low, w4);
    lemma_byte_on_top(w, 0x100_0000_0000, low + 0x1_0000_0000 * bytes[at + 4], w5);
    lemma_byte_on_top(
        w,
        0x1_0000_0000_0000,
        low + 0x1_0000_0000 * bytes[at + 4] + 0x100_0000_0000 * bytes[at + 5],
        w6,
    );
    lemma_byte_on_top(
        w,
        0x100_0000_0000_0000,
        low + 0x1_0000_0000 * bytes[at + 4] + 0x100_0000_0000 * bytes[at + 5] + 0x1_0000_0000_0000
            * bytes[at + 6],
        w7,
    );
    lemma_byte_on_top(w1, 0x100, bytes[at + 1] as int, w2);
    lemma_byte_on_top(w2, 0x100, bytes[at + 2] as int, w3);
    lemma_byte_on_top(w3, 0x100, bytes[at + 3] as int, w4);
    lemma_byte_on_top(w4, 0x100, bytes[at + 4] as int, w5);
    lemma_byte_on_top(w5, 0x100, bytes[at + 5] as int, w6);
    lemma_byte_on_top(w6, 0x100, bytes[at + 6] as int, w7);
}

/// What stands above a place, and what stands below it.
proof fn lemma_byte_on_top(w: int, unit: int, low: int, high: int)
    requires
        unit > 0,
        0 <= low < unit,
        w == low + unit * high,
    ensures
        w / unit == high,
        w % unit == low,
{
    assert(unit * high == high * unit) by (nonlinear_arith);
    lemma_fundamental_div_mod_converse(w, unit, high, low);
}

/// A number drawn is odd and fits 32 bits, and is the state's upper half but for
/// its lowest bit.
pub proof fn drawn_numbers_are_odd(state: u64)
    ensures
        0 < drawn(state) <= u32::MAX,
        drawn(state) % 2 == 1,
        drawn(state) / 2 == state as int / 0x2_0000_0000,
{
}

/// The element types that can be read are those of 32-bit and 16-bit numbers, each
/// by its short and its long name.
pub proof fn readable_types(upper: Seq<char>)
    ensures
        dtype_fault(upper) is None <==> seq![
            "F32"@,
            "F16"@,
            "BF16"@,
            "FLOAT32"@,
            "FLOAT16"@,
            "BFLOAT16"@,
        ].contains(upper),
{
    let all = seq!["F32"@, "F16"@, "BF16"@, "FLOAT32"@, "FLOAT16"@, "BFLOAT16"@];
    assert(all[0] == "F32"@ && all[1] == "F16"@ && all[2] == "BF16"@ && all[3] == "FLOAT32"@);
    assert(all[4] == "FLOAT16"@ && all[5] == "BFLOAT16"@);
}

/// The generator is linear: seeds that lie one apart lead to states that lie a fixed
/// step apart, and the state zero leads to one.
pub proof fn neighbours_stay_apart(state: u64)
    ensures
        state < u64::MAX ==> (next_state((state + 1) as u64) - next_state(state))
            % 0x1_0000_0000_0000_0000 == 6364136223846793005,
        next_state(0) == 1,
{
    let m = 0x1_0000_0000_0000_0000int;
    let k = 6364136223846793005int;
    if state < u64::MAX {
        let a = state * k + 1;
        let b = (state + 1) * k + 1;
        assert(b - a == k);
        lemma_sub_mod_noop(b, a, m);
        lemma_small_mod(k as nat, m as nat);
        assert(next_state((state + 1) as u64) == b % m);
        assert(next_state(state) == a % m);
    }
    lemma_small_mod(1, m as nat);
}

/// Steps of the generator add up.
pub proof fn steps_add_up(seed: u64, a: nat, b: nat)
    ensures
        state_after(seed, 0) == seed,
        state_after(seed, 1) == next_state(seed),
        state_after(seed, a + b) == state_after(state_after(seed, a), b),
    decreases b,
{
    reveal_with_fuel(state_after, 2);
    if b > 0 {
        steps_add_up(seed, a, (b - 1) as nat);
    }
}

/// What is said of a number of experts names the number needed first and the number at
/// hand last.
pub proof fn expected_counts_are_named(what: Seq<char>, top_k: nat, got: nat)
    ensures
        text::occurs_at(count_text(what, top_k, got), "expected "@ + text::decimal(top_k) + what, 0),
        text::ends_with_text(count_text(what, top_k, got), "), got "@ + text::decimal(got)),
{
    let s = count_text(what, top_k, got);
    let (x, y) = ("expected "@ + text::decimal(top_k) + what, "), got "@ + text::decimal(got));
    assert(s == x + text::decimal(top_k) + y);
    assert(s.subrange(0, x.len() as int) == x);
    assert(s.subrange(s.len() - y.len(), s.len() as int) == y);
}

} // verus!
