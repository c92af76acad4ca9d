//! What the benchmarks measure: formats, shapes, inputs and byte totals.

use crate::error;
use crate::error::CudaError;
use crate::flags;
use crate::quant::{QGemvShape, QuantFormat};
use crate::session::MoeTelemetry;
use crate::text;
use vstd::prelude::*;
use vstd::string::*;

verus! {

// ---------------------------------------------------------------------------
// Formats
// ---------------------------------------------------------------------------

/// The format that the arguments name, `q4` where they name none.
pub open spec fn named_format(args: Seq<Seq<char>>) -> Seq<char> {
    match flags::flag_value(args, "--format"@) {
        Some(v) => v,
        None => "q4"@,
    }
}

/// The benchmark of selected experts does not know the format.
pub open spec fn moe_format_fault(name: Seq<char>) -> Option<error::Fault> {
    if name == "q4"@ || name == "q4_0"@ {
        None
    } else {
        Some(
            error::unsupported(
                error::Source::Bench,
                "parse bench_selected_moe --format"@,
                "unsupported format '"@ + name
                    + "' for selected MoE benchmark; current selected MoE path is Q4-only"@,
            ),
        )
    }
}

fn format_name(args: &[String]) -> (name: String)
    ensures
        name@ == named_format(text::views(args@)),
{
    match flags::parse_flag(args, "--format") {
        Some(v) => v,
        None => "q4".to_owned(),
    }
}

/// The format of the benchmark of selected experts, which is Q4 only.
pub fn parse_quant_format(args: &[String]) -> (r: Result<QuantFormat, CudaError>)
    ensures
        match r {
            Ok(f) => f == QuantFormat::Q4_0 && moe_format_fault(
                named_format(text::views(args@)),
            ) is None,
            Err(e) => moe_format_fault(named_format(text::views(args@))) == Some(e@),
        },
{
    let name = format_name(args);
    if text::text_eq(name.as_str(), "q4") || text::text_eq(name.as_str(), "q4_0") {
        return Ok(QuantFormat::Q4_0);
    }
    let mut m = "unsupported format '".to_owned();
    m.append(name.as_str());
    m.append("' for selected MoE benchmark; current selected MoE path is Q4-only");
    Err(error::raise_unsupported(error::Source::Bench, "parse bench_selected_moe --format", m))
}

/// The format that a name stands for.
pub open spec fn format_called(name: Seq<char>) -> Option<QuantFormat> {
    if name == "q4"@ || name == "q4_0"@ {
        Some(QuantFormat::Q4_0)
    } else if name == "q5"@ || name == "q5_0"@ {
        Some(QuantFormat::Q5_0)
    } else if name == "iq3"@ || name == "iq3_0"@ {
        Some(QuantFormat::IQ3_0)
    } else if name == "fp4"@ || name == "fp4_e2m1"@ || name == "deepseek_fp4"@ || name
        == "deepseek_fp4_e2m1"@ {
        Some(QuantFormat::DeepSeekFp4E2M1)
    } else {
        None
    }
}

/// The format of the matrix-vector benchmark, or what to tell the user where it
/// is not known.
pub fn parse_gemv_format(args: &[String]) -> (r: Result<QuantFormat, String>)
    ensures
        match r {
            Ok(f) => format_called(named_format(text::views(args@))) == Some(f),
            Err(m) => {
                &&& format_called(named_format(text::views(args@))) is None
                &&& m@ == "unsupported --format "@ + named_format(text::views(args@))
                    + "; expected q4, q5, iq3, or fp4"@
            },
        },
{
    let name = format_name(args);
    let n = name.as_str();
    if text::text_eq(n, "q4") || text::text_eq(n, "q4_0") {
        return Ok(QuantFormat::Q4_0);
    }
    if text::text_eq(n, "q5") || text::text_eq(n, "q5_0") {
        return Ok(QuantFormat::Q5_0);
    }
    if text::text_eq(n, "iq3") || text::text_eq(n, "iq3_0") {
        return Ok(QuantFormat::IQ3_0);
    }
    if text::text_eq(n, "fp4") || text::text_eq(n, "fp4_e2m1") || text::text_eq(n, "deepseek_fp4")
        || text::text_eq(n, "deepseek_fp4_e2m1") {
        return Ok(QuantFormat::DeepSeekFp4E2M1);
    }
    let mut m = "unsupported --format ".to_owned();
    m.append(n);
    m.append("; expected q4, q5, iq3, or fp4");
    Err(m)
}

/// Every format is known by its label.
pub proof fn labels_name_formats(f: QuantFormat)
    ensures
        format_called(f.spec_format_label()) == Some(f),
{
    reveal_strlit("q4_0");
    reveal_strlit("q5_0");
    reveal_strlit("iq3_0");
    reveal_strlit("deepseek_fp4_e2m1");
    reveal_strlit("q4");
    reveal_strlit("q5");
    reveal_strlit("iq3");
    reveal_strlit("fp4");
    reveal_strlit("fp4_e2m1");
    reveal_strlit("deepseek_fp4");
    assert("q5_0"@[1] == '5' && "q4_0"@[1] == '4');
    assert("iq3_0"@.len() == 5 && "deepseek_fp4_e2m1"@.len() == 17);
}

// ---------------------------------------------------------------------------
// Options
// ---------------------------------------------------------------------------

/// The options that both benchmarks share.
#[derive(Debug, Clone, Copy, PartialEq, Eq, Structural)]
pub struct BenchOptions {
    pub is_matrix: bool,
    pub iters: usize,
    pub warmup: usize,
    pub single_run: bool,
    pub seed: u64,
}

/// Where there is a matrix of shapes, the benchmark runs ten times after five warm
/// runs; else once. A run that is asked for nothing else is a single run.
pub open spec fn bench_options_of(
    o: BenchOptions,
    args: Seq<Seq<char>>,
    is_matrix: bool,
) -> bool {
    let most = usize::MAX as nat;
    &&& o.is_matrix == is_matrix
    &&& o.iters == flags::flag_number_or(
        args,
        "--iters"@,
        most,
        if is_matrix {
            10
        } else {
            1
        },
    )
    &&& o.warmup == flags::flag_number_or(
        args,
        "--warmup"@,
        most,
        if is_matrix {
            5
        } else {
            0
        },
    )
    &&& o.single_run == (!is_matrix && o.iters == 1 && o.warmup == 0 && flags::flag_value(
        args,
        "--iters"@,
    ) is None && flags::flag_value(args, "--warmup"@) is None)
    &&& o.seed == flags::flag_number_or(args, "--seed"@, u64::MAX as nat, 123)
}

fn read_bench_options(args: &[String], is_matrix: bool) -> (o: BenchOptions)
    ensures
        bench_options_of(o, text::views(args@), is_matrix),
{
    let iters: usize = flags::usize_flag_or(
        args,
        "--iters",
        if is_matrix {
            10
        } else {
            1
        },
    );
    let warmup: usize = flags::usize_flag_or(
        args,
        "--warmup",
        if is_matrix {
            5
        } else {
            0
        },
    );
    let no_iters = flags::parse_flag(args, "--iters").is_none();
    let no_warmup = flags::parse_flag(args, "--warmup").is_none();
    BenchOptions {
        is_matrix,
        iters,
        warmup,
        single_run: !is_matrix && iters == 1 && warmup == 0 && no_iters && no_warmup,
        seed: flags::u64_flag_or(args, "--seed", 123),
    }
}

/// The options of the benchmark of selected experts. A report to take the shape
/// from rules out the matrix of shapes.
pub fn moe_bench_options(args: &[String]) -> (o: BenchOptions)
    ensures
        bench_options_of(
            o,
            text::views(args@),
            text::views(args@).contains("--matrix"@) && flags::flag_value(
                text::views(args@),
                "--from-sanity-report"@,
            ) is None,
        ),
{
    let from_report = flags::parse_flag(args, "--from-sanity-report").is_some();
    read_bench_options(args, flags::has_flag(args, "--matrix") && !from_report)
}

/// The options of the matrix-vector benchmark.
pub fn gemv_bench_options(args: &[String]) -> (o: BenchOptions)
    ensures
        bench_options_of(o, text::views(args@), text::views(args@).contains("--matrix"@)),
{
    read_bench_options(args, flags::has_flag(args, "--matrix"))
}

/// The size of a mixture-of-experts layer to measure.
#[derive(Debug, Clone, Copy, PartialEq, Eq, Structural)]
pub struct BenchShape {
    pub hidden: usize,
    pub intermediate: usize,
    pub out: usize,
    pub selected_experts: usize,
}

/// The size that a report of a model gives.
#[derive(Debug, Clone, Copy, PartialEq, Eq, Structural)]
pub struct SanityReportShape {
    pub hidden_size: usize,
    pub intermediate_size: usize,
    pub top_k: usize,
}

/// The report gives a size of zero.
pub open spec fn sanity_fault(path: Seq<char>, s: SanityReportShape) -> Option<error::Fault> {
    let action = "validate sanity report "@ + path;
    if s.hidden_size == 0 {
        Some(error::invalid(error::Source::Bench, action, "hidden_size must be non-zero"@))
    } else if s.intermediate_size == 0 {
        Some(error::invalid(error::Source::Bench, action, "intermediate_size must be non-zero"@))
    } else if s.top_k == 0 {
        Some(error::invalid(error::Source::Bench, action, "top_k must be non-zero"@))
    } else {
        None
    }
}

/// Checks that a report, found at `path`, gives no size of zero.
pub fn validate_sanity_shape(path: &str, shape: SanityReportShape) -> (r: Result<(), CudaError>)
    ensures
        match r {
            Ok(_) => sanity_fault(path@, shape) is None,
            Err(e) => sanity_fault(path@, shape) == Some(e@),
        },
{
    let mut action = "validate sanity report ".to_owned();
    action.append(path);
    let what = if shape.hidden_size == 0 {
        "hidden_size must be non-zero"
    } else if shape.intermediate_size == 0 {
        "intermediate_size must be non-zero"
    } else if shape.top_k == 0 {
        "top_k must be non-zero"
    } else {
        return Ok(());
    };
    Err(error::raise_invalid(error::Source::Bench, action.as_str(), what.to_owned()))
}

/// The size to measure for a model: its output is as wide as its input.
pub fn shape_from_report(s: SanityReportShape) -> (b: BenchShape)
    ensures
        b == (BenchShape {
            hidden: s.hidden_size,
            intermediate: s.intermediate_size,
            out: s.hidden_size,
            selected_experts: s.top_k,
        }),
{
    BenchShape {
        hidden: s.hidden_size,
        intermediate: s.intermediate_size,
        out: s.hidden_size,
        selected_experts: s.top_k,
    }
}

/// The size to measure that the arguments ask for.
pub fn shape_from_flags(args: &[String]) -> (b: BenchShape)
    ensures
        b.hidden == flags::flag_number_or(
            text::views(args@),
            "--hidden"@,
            usize::MAX as nat,
            256,
        ),
        b.intermediate == flags::flag_number_or(
            text::views(args@),
            "--intermediate"@,
            usize::MAX as nat,
            512,
        ),
        b.out == flags::flag_number_or(text::views(args@), "--out"@, usize::MAX as nat, 256),
        b.selected_experts == flags::flag_number_or(
            text::views(args@),
            "--experts"@,
            usize::MAX as nat,
            2,
        ),
{
    BenchShape {
        hidden: flags::usize_flag_or(args, "--hidden", 256),
        intermediate: flags::usize_flag_or(args, "--intermediate", 512),
        out: flags::usize_flag_or(args, "--out", 256),
        selected_experts: flags::usize_flag_or(args, "--experts", 2),
    }
}

/// The rows and columns to measure that the arguments ask for.
pub fn gemv_size_from_flags(args: &[String]) -> (size: (usize, usize))
    ensures
        size.0 == flags::flag_number_or(text::views(args@), "--rows"@, usize::MAX as nat, 11008),
        size.1 == flags::flag_number_or(text::views(args@), "--cols"@, usize::MAX as nat, 4096),
{
    (
        flags::usize_flag_or(args, "--rows", 11008),
        flags::usize_flag_or(args, "--cols", 4096),
    )
}

/// The bytes that a matrix-vector product reads: the packed matrix and the vector.
pub fn gemv_bytes_read(shape: &QGemvShape) -> (n: usize)
    requires
        shape.block_size > 0,
        shape.spec_row_bytes() <= usize::MAX,
        shape.spec_matrix_bytes() + 4 * shape.cols <= usize::MAX,
    ensures
        n == shape.spec_matrix_bytes() + 4 * shape.cols,
{
    shape.quantized_matrix_bytes() + shape.cols * 4
}

// ---------------------------------------------------------------------------
// Inputs
// ---------------------------------------------------------------------------

/// How many experts the benchmark makes: at least eight, so that a small selection
/// is one.
pub open spec fn spec_expert_count(num_selected: usize) -> usize {
    if num_selected >= 8 {
        num_selected
    } else {
        8
    }
}

/// How many experts the benchmark makes.
pub fn expert_count(num_selected: usize) -> (n: usize)
    ensures
        n == spec_expert_count(num_selected),
{
    if num_selected >= 8 {
        num_selected
    } else {
        8
    }
}

/// The experts that a seed selects: consecutive ones, from the seed on, going
/// round.
pub fn selected_experts(seed: u64, num_selected: usize) -> (ids: Vec<usize>)
    requires
        seed + num_selected <= u64::MAX + 1,
    ensures
        ids@.len() == num_selected,
        forall|i: int|
            0 <= i < num_selected ==> #[trigger] ids@[i] == (seed + i) % (spec_expert_count(
                num_selected,
            ) as int),
{
    let n: usize = expert_count(num_selected);
    let mut ids: Vec<usize> = Vec::new();
    let mut i: usize = 0;
    while i < num_selected
        invariant
            i <= num_selected,
            n == spec_expert_count(num_selected),
            seed + num_selected <= u64::MAX + 1,
            ids@.len() == i,
            forall|j: int| 0 <= j < i ==> #[trigger] ids@[j] == (seed + j) % (n as int),
        decreases num_selected - i,
    {
        let at: u64 = (seed + i as u64) % n as u64;
        ids.push(at as usize);
        i = i + 1;
    }
    ids
}

/// No expert is selected twice.
pub proof fn selection_is_distinct(seed: u64, num_selected: usize, i: int, j: int)
    requires
        0 <= i < j < num_selected,
    ensures
        (seed + i) % (spec_expert_count(num_selected) as int) != (seed + j) % (spec_expert_count(
            num_selected,
        ) as int),
{
    let n = spec_expert_count(num_selected) as int;
    vstd::arithmetic::div_mod::lemma_fundamental_div_mod(seed + i, n);
    vstd::arithmetic::div_mod::lemma_fundamental_div_mod(seed + j, n);
    let (a, b) = ((seed + i) / n, (seed + j) / n);
    if (seed + i) % n == (seed + j) % n {
        assert(n * b - n * a == j - i);
        assert(n * b - n * a == n * (b - a)) by (nonlinear_arith);
        assert(b - a >= 1) by (nonlinear_arith)
            requires
                n * (b - a) > 0,
                n > 0,
        ;
        assert(n * (b - a) >= n) by (nonlinear_arith)
            requires
                b - a >= 1,
                n > 0,
        ;
    }
}

// ---------------------------------------------------------------------------
// Totals
// ---------------------------------------------------------------------------

/// The bytes of several runs.
#[derive(Debug, Clone, Copy, PartialEq, Eq, Structural)]
pub struct ByteTotals {
    pub logical: usize,
    pub loaded: usize,
    pub reused: usize,
}

impl ByteTotals {
    /// Every byte that was asked for was loaded or reused.
    pub open spec fn balanced(self) -> bool {
        self.logical == self.loaded + self.reused
    }

    /// The totals of no runs.
    pub fn new() -> (t: ByteTotals)
        ensures
            t == (ByteTotals { logical: 0, loaded: 0, reused: 0 }),
            t.balanced(),
    {
        ByteTotals { logical: 0, loaded: 0, reused: 0 }
    }

    /// Adds the bytes of a run. Balanced totals stay balanced.
    pub fn count(&mut self, t: &MoeTelemetry)
        requires
            old(self).logical + t.logical_expert_bytes_requested <= usize::MAX,
            old(self).loaded + t.actual_expert_bytes_loaded <= usize::MAX,
            old(self).reused + t.resident_cache_bytes_reused <= usize::MAX,
        ensures
            *final(self) == (ByteTotals {
                logical: (old(self).logical + t.logical_expert_bytes_requested) as usize,
                loaded: (old(self).loaded + t.actual_expert_bytes_loaded) as usize,
                reused: (old(self).reused + t.resident_cache_bytes_reused) as usize,
            }),
            (old(self).balanced() && t.logical_expert_bytes_requested
                == t.actual_expert_bytes_loaded + t.resident_cache_bytes_reused)
                ==> final(self).balanced(),
    {
        self.logical = self.logical + t.logical_expert_bytes_requested;
        self.loaded = self.loaded + t.actual_expert_bytes_loaded;
        self.reused = self.reused + t.resident_cache_bytes_reused;
    }
}

/// A benchmark has at least eight experts and at least as many as it selects, and
/// no more than that needs.
pub proof fn enough_experts_are_made(num_selected: usize)
    ensures
        spec_expert_count(num_selected) >= 8,
        spec_expert_count(num_selected) >= num_selected,
        spec_expert_count(num_selected) == 8 || spec_expert_count(num_selected) == num_selected,
{
}

/// A report's shape is accepted exactly when none of its sizes is zero.
pub proof fn sized_reports_are_accepted(path: Seq<char>, s: SanityReportShape)
    ensures
        sanity_fault(path, s) is None <==> s.hidden_size > 0 && s.intermediate_size > 0 && s.top_k
            > 0,
{
}

/// The selected path runs in Q4 alone, by its short and its long name, and any
/// other name of a format is refused.
pub proof fn selected_paths_run_in_q4(name: Seq<char>)
    ensures
        moe_format_fault(name) is None <==> format_called(name) == Some(QuantFormat::Q4_0),
        moe_format_fault(name) matches Some(f) ==> f.kind == error::CudaErrorKind::Unsupported,
{
    reveal_strlit("q4");
    reveal_strlit("q4_0");
    reveal_strlit("q5");
    reveal_strlit("q5_0");
    reveal_strlit("iq3");
    reveal_strlit("iq3_0");
}

/// Without flags a benchmark runs once and at once, a matrix of them ten times
/// after five to warm up. A flag sets the number that it names.
pub proof fn benchmarks_have_defaults(o: BenchOptions, args: Seq<Seq<char>>, is_matrix: bool)
    requires
        bench_options_of(o, args, is_matrix),
    ensures
        !args.contains("--iters"@) ==> o.iters == if is_matrix {
            10
        } else {
            1int
        },
        !args.contains("--warmup"@) ==> o.warmup == if is_matrix {
            5
        } else {
            0int
        },
        !args.contains("--seed"@) ==> o.seed == 123,
        o.single_run ==> !is_matrix && o.iters == 1 && o.warmup == 0,
        !is_matrix && !args.contains("--iters"@) && !args.contains("--warmup"@) ==> o.single_run,
        named_format(args) == "q4"@ || flags::flag_value(args, "--format"@) == Some(
            named_format(args),
        ),
{
    let most = usize::MAX as nat;
    let (i, w) = if is_matrix {
        (10nat, 5nat)
    } else {
        (1, 0)
    };
    if !args.contains("--iters"@) {
        flags::absent_flags_leave_defaults(args, "--iters"@, most, i);
    }
    if !args.contains("--warmup"@) {
        flags::absent_flags_leave_defaults(args, "--warmup"@, most, w);
    }
    if !args.contains("--seed"@) {
        flags::absent_flags_leave_defaults(args, "--seed"@, u64::MAX as nat, 123);
    }
}

/// Each format is known by these names, and by no others.
pub proof fn formats_have_names(name: Seq<char>)
    ensures
        format_called(name) == Some(QuantFormat::Q4_0) <==> seq!["q4"@, "q4_0"@].contains(name),
        format_called(name) == Some(QuantFormat::Q5_0) <==> seq!["q5"@, "q5_0"@].contains(name),
        format_called(name) == Some(QuantFormat::IQ3_0) <==> seq!["iq3"@, "iq3_0"@].contains(name),
        format_called(name) == Some(QuantFormat::DeepSeekFp4E2M1) <==> seq![
            "fp4"@,
            "fp4_e2m1"@,
            "deepseek_fp4"@,
            "deepseek_fp4_e2m1"@,
        ].contains(name),
{
    reveal_strlit("q4");
    reveal_strlit("q4_0");
    reveal_strlit("q5");
    reveal_strlit("q5_0");
    reveal_strlit("iq3");
    reveal_strlit("iq3_0");
    reveal_strlit("fp4");
    reveal_strlit("fp4_e2m1");
    reveal_strlit("deepseek_fp4");
    reveal_strlit("deepseek_fp4_e2m1");
    assert("q4"@.len() == 2 && "q5"@.len() == 2 && "q4_0"@.len() == 4 && "q5_0"@.len() == 4
        && "iq3"@.len() == 3 && "iq3_0"@.len() == 5 && "fp4"@.len() == 3 && "fp4_e2m1"@.len() == 8
        && "deepseek_fp4"@.len() == 12 && "deepseek_fp4_e2m1"@.len() == 17);
    assert("q4"@[1] != "q5"@[1] && "q4_0"@[1] != "q5_0"@[1] && "iq3"@[0] != "fp4"@[0]);
    let (a, b, c) = (seq!["q4"@, "q4_0"@], seq!["q5"@, "q5_0"@], seq!["iq3"@, "iq3_0"@]);
    let d = seq!["fp4"@, "fp4_e2m1"@, "deepseek_fp4"@, "deepseek_fp4_e2m1"@];
    assert(a[0] == "q4"@ && a[1] == "q4_0"@);
    assert(b[0] == "q5"@ && b[1] == "q5_0"@);
    assert(c[0] == "iq3"@ && c[1] == "iq3_0"@);
    assert(d[0] == "fp4"@ && d[1] == "fp4_e2m1"@ && d[2] == "deepseek_fp4"@ && d[3]
        == "deepseek_fp4_e2m1"@);
}

} // verus!
