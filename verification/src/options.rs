//! The options of a single-layer mixture-of-experts run.

use crate::deepseek::BlockFamily;
use crate::error;
use crate::error::CudaError;
use crate::flags;
use crate::text;
use vstd::prelude::*;
use vstd::string::*;

verus! {

/// In which arithmetic the experts run.
#[derive(Debug, Clone, Copy, PartialEq, Eq, Structural)]
pub enum ExecutionFormat {
    NativeFp4,
    Q4Transcode,
    OfficialRouted,
}

/// How the experts of a layer are chosen.
#[derive(Debug, Clone, Copy, PartialEq, Eq, Structural)]
pub enum Selection {
    /// The user names them.
    Manual,
    /// By gating, with a bias or a token table.
    Gated,
    /// By a plain router.
    Routed,
}

/// What a run was asked to do.
#[derive(Debug, Clone)]
pub struct RunOptions {
    pub parse_dir: String,
    pub model_dir: String,
    pub layer: usize,
    pub seed: u64,
    pub cache_bytes: usize,
    pub bypass_oversized_experts: bool,
    pub warmup: usize,
    pub repeat: usize,
    pub router_mode: bool,
    pub include_shared: bool,
    pub input_id: Option<usize>,
    pub preload_shared_all: bool,
    pub shared_residency_pinned: bool,
    pub research_mode: bool,
    pub research_layers: Option<Vec<usize>>,
    pub research_seeds: Option<Vec<usize>>,
    pub output_jsonl: Option<String>,
    pub manual_ids: Option<Vec<usize>>,
    pub manual_weights_raw: Option<String>,
    pub execution_format: Option<ExecutionFormat>,
    pub block_family: BlockFamily,
}

/// A fault of the arguments.
pub open spec fn args_fault(message: Seq<char>) -> error::Fault {
    error::invalid(error::Source::Options, "parse args"@, message)
}

/// The value of a flag is not one of the known ones.
pub open spec fn choice_fault(
    value: Option<Seq<char>>,
    first: Seq<char>,
    second: Seq<char>,
    prefix: Seq<char>,
    suffix: Seq<char>,
) -> Option<error::Fault> {
    match value {
        Some(v) => if v == first || v == second {
            None
        } else {
            Some(args_fault(prefix + v + suffix))
        },
        None => None,
    }
}

/// The run goes by the official arithmetic: a mode is given, and the process was
/// started with the word.
pub open spec fn official_mode(args: Seq<Seq<char>>, process_args: Seq<Seq<char>>) -> bool {
    args.contains("--mode"@) && process_args.contains("official-routed"@)
}

/// What is wrong with the flags that are needed.
pub open spec fn required_fault(args: Seq<Seq<char>>) -> Option<error::Fault> {
    if flags::flag_value(args, "--parse-dir"@) is None {
        Some(args_fault("--parse-dir is required"@))
    } else if flags::flag_value(args, "--model-dir"@) is None {
        Some(args_fault("--model-dir is required"@))
    } else if flags::flag_number(args, "--layer"@, usize::MAX as nat) is None {
        Some(args_fault("--layer is required and must be a non-negative integer"@))
    } else if flags::flag_number_or(args, "--warmup"@, usize::MAX as nat, 0) == 0
        && flags::flag_number_or(args, "--repeat"@, usize::MAX as nat, 1) == 0 {
        Some(args_fault("--repeat must be >= 1 if --warmup is 0"@))
    } else {
        None
    }
}

/// A selection mode that is not known.
pub open spec fn selection_fault(args: Seq<Seq<char>>) -> Option<error::Fault> {
    choice_fault(
        flags::flag_value(args, "--selection-mode"@),
        "router"@,
        "manual"@,
        "invalid selection-mode: '"@,
        "' (expected manual|router)"@,
    )
}

/// An execution format that is not known. The official mode does not look at it.
pub open spec fn format_fault(args: Seq<Seq<char>>, process_args: Seq<Seq<char>>) -> Option<
    error::Fault,
> {
    if official_mode(args, process_args) {
        None
    } else {
        choice_fault(
            flags::flag_value(args, "--execution-format"@),
            "native-fp4"@,
            "q4-transcode"@,
            "invalid execution-format: '"@,
            "' (expected native-fp4|q4-transcode)"@,
        )
    }
}

/// A block family that is not known.
pub open spec fn family_fault(args: Seq<Seq<char>>) -> Option<error::Fault> {
    choice_fault(
        flags::flag_value(args, "--block-family"@),
        "decoder"@,
        "mtp"@,
        "invalid block-family: '"@,
        "' (expected decoder|mtp)"@,
    )
}

/// A flag's value is no list of numbers.
pub open spec fn list_flag_fault(args: Seq<Seq<char>>, name: Seq<char>) -> Option<error::Fault> {
    match flags::flag_value(args, name) {
        Some(raw) => flags::list_fault(raw),
        None => None,
    }
}

/// A flag's value specifies no seeds.
pub open spec fn seeds_flag_fault(args: Seq<Seq<char>>, name: Seq<char>) -> Option<error::Fault> {
    match flags::flag_value(args, name) {
        Some(raw) => flags::seeds_fault(raw),
        None => None,
    }
}

/// The first of two faults.
pub open spec fn either(a: Option<error::Fault>, b: Option<error::Fault>) -> Option<error::Fault> {
    match a {
        Some(f) => Some(f),
        None => b,
    }
}

/// The first thing that is wrong with the arguments.
pub open spec fn options_fault(args: Seq<Seq<char>>, process_args: Seq<Seq<char>>) -> Option<
    error::Fault,
> {
    either(
        required_fault(args),
        either(
            selection_fault(args),
            either(
                list_flag_fault(args, "--layers"@),
                either(
                    seeds_flag_fault(args, "--seeds"@),
                    either(
                        list_flag_fault(args, "--expert-ids"@),
                        either(format_fault(args, process_args), family_fault(args)),
                    ),
                ),
            ),
        ),
    )
}

/// The list is what the flag's value denotes.
pub open spec fn list_flag_is(
    list: Option<Vec<usize>>,
    args: Seq<Seq<char>>,
    name: Seq<char>,
) -> bool {
    match (list, flags::flag_value(args, name)) {
        (Some(ns), Some(raw)) => flags::is_list(ns@, raw),
        (None, None) => true,
        _ => false,
    }
}

/// The list holds the seeds that the flag's value specifies.
pub open spec fn seeds_flag_is(
    list: Option<Vec<usize>>,
    args: Seq<Seq<char>>,
    name: Seq<char>,
) -> bool {
    match (list, flags::flag_value(args, name)) {
        (Some(ns), Some(raw)) => flags::is_seeds(ns@, raw),
        (None, None) => true,
        _ => false,
    }
}

/// The execution format that the arguments ask for.
pub open spec fn asked_format(args: Seq<Seq<char>>, process_args: Seq<Seq<char>>) -> Option<
    ExecutionFormat,
> {
    if official_mode(args, process_args) {
        Some(ExecutionFormat::OfficialRouted)
    } else {
        match flags::flag_value(args, "--execution-format"@) {
            Some(v) => if v == "native-fp4"@ {
                Some(ExecutionFormat::NativeFp4)
            } else {
                Some(ExecutionFormat::Q4Transcode)
            },
            None => None,
        }
    }
}

/// The options are those that the arguments ask for.
pub open spec fn options_of(
    o: RunOptions,
    args: Seq<Seq<char>>,
    process_args: Seq<Seq<char>>,
) -> bool {
    let most = usize::MAX as nat;
    &&& Some(o.parse_dir@) == flags::flag_value(args, "--parse-dir"@)
    &&& Some(o.model_dir@) == flags::flag_value(args, "--model-dir"@)
    &&& Some(o.layer as nat) == flags::flag_number(args, "--layer"@, most)
    &&& o.seed == flags::flag_number_or(args, "--seed"@, u64::MAX as nat, 42)
    &&& o.cache_bytes == flags::flag_number_or(args, "--cache-bytes"@, most, 0)
    &&& o.bypass_oversized_experts == args.contains("--bypass-oversized-experts"@)
    &&& o.warmup == flags::flag_number_or(args, "--warmup"@, most, 0)
    &&& o.repeat == flags::flag_number_or(args, "--repeat"@, most, 1)
    &&& o.router_mode == (flags::flag_value(args, "--selection-mode"@) == Some("router"@))
    &&& o.include_shared == args.contains("--include-shared"@)
    &&& match o.input_id {
        Some(n) => flags::flag_number(args, "--input-id"@, most) == Some(n as nat),
        None => flags::flag_number(args, "--input-id"@, most) is None,
    }
    &&& o.preload_shared_all == args.contains("--preload-shared-all-layers"@)
    &&& o.shared_residency_pinned == (flags::flag_value(args, "--shared-residency"@) == Some(
        "pinned_all_layers"@,
    ))
    &&& o.research_mode == args.contains("--research-moe-field"@)
    &&& list_flag_is(o.research_layers, args, "--layers"@)
    &&& seeds_flag_is(o.research_seeds, args, "--seeds"@)
    &&& flags::opt_view(o.output_jsonl) == flags::flag_value(args, "--output-jsonl"@)
    &&& list_flag_is(o.manual_ids, args, "--expert-ids"@)
    &&& flags::opt_view(o.manual_weights_raw) == flags::flag_value(args, "--expert-weights"@)
    &&& o.execution_format == asked_format(args, process_args)
    &&& o.block_family == if flags::flag_value(args, "--block-family"@) == Some("mtp"@) {
        BlockFamily::Mtp
    } else {
        BlockFamily::Decoder
    }
}

impl RunOptions {
    /// The experts are chosen by hand.
    pub open spec fn spec_manual_mode(self) -> bool {
        !self.router_mode && self.manual_ids is Some
    }

    /// Whether the experts are chosen by hand.
    pub fn manual_mode(&self) -> (yes: bool)
        ensures
            yes == self.spec_manual_mode(),
    {
        !self.router_mode && self.manual_ids.is_some()
    }

    /// How the experts are chosen.
    pub open spec fn spec_selection(self) -> Selection {
        if self.router_mode {
            Selection::Gated
        } else if self.manual_ids is Some {
            Selection::Manual
        } else {
            Selection::Routed
        }
    }

    /// How the experts are chosen: by hand, by gating, or by a plain router.
    pub fn selection(&self) -> (s: Selection)
        ensures
            s == self.spec_selection(),
            (s == Selection::Manual) == self.spec_manual_mode(),
    {
        if self.manual_mode() {
            Selection::Manual
        } else if self.router_mode {
            Selection::Gated
        } else {
            Selection::Routed
        }
    }

    /// The weights of experts chosen by hand are equal: none are given, or
    /// `uniform` is.
    pub open spec fn spec_uniform_weights(self) -> bool {
        self.manual_weights_raw matches Some(raw) ==> raw@ == "uniform"@
    }

    /// Whether experts chosen by hand have equal weights.
    pub fn uniform_weights(&self) -> (yes: bool)
        ensures
            yes == self.spec_uniform_weights(),
    {
        match &self.manual_weights_raw {
            Some(raw) => text::text_eq(raw.as_str(), "uniform"),
            None => true,
        }
    }
}

fn raise_args(message: &str) -> (e: CudaError)
    ensures
        e@ == args_fault(message@),
{
    error::raise_invalid(error::Source::Options, "parse args", message.to_owned())
}

fn is_text(value: &Option<String>, wanted: &str) -> (same: bool)
    ensures
        same == (flags::opt_view(*value) == Some(wanted@)),
{
    match value {
        Some(v) => text::text_eq(v.as_str(), wanted),
        None => false,
    }
}

fn check_choice(value: &Option<String>, first: &str, second: &str, prefix: &str, suffix: &str) -> (r:
    Result<(), CudaError>)
    ensures
        match r {
            Ok(_) => choice_fault(
                flags::opt_view(*value),
                first@,
                second@,
                prefix@,
                suffix@,
            ) is None,
            Err(e) => choice_fault(flags::opt_view(*value), first@, second@, prefix@, suffix@)
                == Some(e@),
        },
{
    match value {
        Some(v) => {
            if text::text_eq(v.as_str(), first) || text::text_eq(v.as_str(), second) {
                return Ok(());
            }
            let mut m = prefix.to_owned();
            m.append(v.as_str());
            m.append(suffix);
            Err(error::raise_invalid(error::Source::Options, "parse args", m))
        },
        None => Ok(()),
    }
}

fn list_flag(args: &[String], name: &str) -> (r: Result<Option<Vec<usize>>, CudaError>)
    ensures
        match r {
            Ok(list) => {
                &&& list_flag_fault(text::views(args@), name@) is None
                &&& list_flag_is(list, text::views(args@), name@)
            },
            Err(e) => list_flag_fault(text::views(args@), name@) == Some(e@),
        },
{
    match flags::parse_flag(args, name) {
        Some(raw) => match flags::parse_comma_separated_usize(raw.as_str()) {
            Ok(ns) => Ok(Some(ns)),
            Err(e) => Err(e),
        },
        None => Ok(None),
    }
}

fn seeds_flag(args: &[String], name: &str) -> (r: Result<Option<Vec<usize>>, CudaError>)
    ensures
        match r {
            Ok(list) => {
                &&& seeds_flag_fault(text::views(args@), name@) is None
                &&& seeds_flag_is(list, text::views(args@), name@)
            },
            Err(e) => seeds_flag_fault(text::views(args@), name@) == Some(e@),
        },
{
    match flags::parse_flag(args, name) {
        Some(raw) => match flags::parse_seed_range(raw.as_str()) {
            Ok(ns) => Ok(Some(ns)),
            Err(e) => Err(e),
        },
        None => Ok(None),
    }
}

/// Reads the options of a run. `process_args` are the arguments that the process
/// was started with.
pub fn parse_options(args: &[String], process_args: &[String]) -> (r: Result<RunOptions, CudaError>)
    ensures
        match r {
            Ok(o) => {
                &&& options_fault(text::views(args@), text::views(process_args@)) is None
                &&& options_of(o, text::views(args@), text::views(process_args@))
            },
            Err(e) => options_fault(text::views(args@), text::views(process_args@)) == Some(e@),
        },
{
    let parse_dir = match flags::parse_flag(args, "--parse-dir") {
        Some(v) => v,
        None => {
            return Err(raise_args("--parse-dir is required"));
        },
    };
    let model_dir = match flags::parse_flag(args, "--model-dir") {
        Some(v) => v,
        None => {
            return Err(raise_args("--model-dir is required"));
        },
    };
    let layer: usize = match flags::usize_flag(args, "--layer") {
        Some(v) => v,
        None => {
            return Err(raise_args("--layer is required and must be a non-negative integer"));
        },
    };
    let warmup: usize = flags::usize_flag_or(args, "--warmup", 0);
    let repeat: usize = flags::usize_flag_or(args, "--repeat", 1);
    if warmup == 0 && repeat == 0 {
        return Err(raise_args("--repeat must be >= 1 if --warmup is 0"));
    }
    let selection = flags::parse_flag(args, "--selection-mode");
    match check_choice(
        &selection,
        "router",
        "manual",
        "invalid selection-mode: '",
        "' (expected manual|router)",
    ) {
        Ok(_) => {},
        Err(e) => {
            return Err(e);
        },
    }
    let research_layers = match list_flag(args, "--layers") {
        Ok(list) => list,
        Err(e) => {
            return Err(e);
        },
    };
    let research_seeds = match seeds_flag(args, "--seeds") {
        Ok(list) => list,
        Err(e) => {
            return Err(e);
        },
    };
    let manual_ids = match list_flag(args, "--expert-ids") {
        Ok(list) => list,
        Err(e) => {
            return Err(e);
        },
    };
    let official = flags::has_flag(args, "--mode") && flags::has_flag(
        process_args,
        "official-routed",
    );
    let execution_format = if official {
        Some(ExecutionFormat::OfficialRouted)
    } else {
        let value = flags::parse_flag(args, "--execution-format");
        match check_choice(
            &value,
            "native-fp4",
            "q4-transcode",
            "invalid execution-format: '",
            "' (expected native-fp4|q4-transcode)",
        ) {
            Ok(_) => {},
            Err(e) => {
                return Err(e);
            },
        }
        if is_text(&value, "native-fp4") {
            Some(ExecutionFormat::NativeFp4)
        } else if value.is_some() {
            Some(ExecutionFormat::Q4Transcode)
        } else {
            None
        }
    };
    let family = flags::parse_flag(args, "--block-family");
    match check_choice(
        &family,
        "decoder",
        "mtp",
        "invalid block-family: '",
        "' (expected decoder|mtp)",
    ) {
        Ok(_) => {},
        Err(e) => {
            return Err(e);
        },
    }
    let block_family = if is_text(&family, "mtp") {
        BlockFamily::Mtp
    } else {
        BlockFamily::Decoder
    };
    let residency = flags::parse_flag(args, "--shared-residency");
    Ok(
        RunOptions {
            parse_dir,
            model_dir,
            layer,
            seed: flags::u64_flag_or(args, "--seed", 42),
            cache_bytes: flags::usize_flag_or(args, "--cache-bytes", 0),
            bypass_oversized_experts: flags::has_flag(args, "--bypass-oversized-experts"),
            warmup,
            repeat,
            router_mode: is_text(&selection, "router"),
            include_shared: flags::has_flag(args, "--include-shared"),
            input_id: flags::usize_flag(args, "--input-id"),
            preload_shared_all: flags::has_flag(args, "--preload-shared-all-layers"),
            shared_residency_pinned: is_text(&residency, "pinned_all_layers"),
            research_mode: flags::has_flag(args, "--research-moe-field"),
            research_layers,
            research_seeds,
            output_jsonl: flags::parse_flag(args, "--output-jsonl"),
            manual_ids,
            manual_weights_raw: flags::parse_flag(args, "--expert-weights"),
            execution_format,
            block_family,
        },
    )
}

/// A run with readable arguments runs at least once, warm or measured.
pub proof fn some_run_is_made(o: RunOptions, args: Seq<Seq<char>>, process_args: Seq<Seq<char>>)
    requires
        options_fault(args, process_args) is None,
        options_of(o, args, process_args),
    ensures
        o.warmup + o.repeat >= 1,
{
}

/// The names of formats and families differ.
proof fn lemma_choices_differ()
    ensures
        "native-fp4"@ != "q4-transcode"@,
        "decoder"@ != "mtp"@,
        "router"@ != "manual"@,
{
    reveal_strlit("native-fp4");
    reveal_strlit("q4-transcode");
    reveal_strlit("decoder");
    reveal_strlit("mtp");
    reveal_strlit("router");
    reveal_strlit("manual");
    assert("native-fp4"@.len() == 10 && "q4-transcode"@.len() == 12);
    assert("decoder"@.len() == 7 && "mtp"@.len() == 3);
    assert("router"@[0] == 'r' && "manual"@[0] == 'm');
}

/// Accepted options ask for the format that is named: the official one in its
/// mode, else the one that the flag names, else none. Any other name is refused.
pub proof fn named_formats_are_asked_for(
    o: RunOptions,
    args: Seq<Seq<char>>,
    process_args: Seq<Seq<char>>,
)
    requires
        options_fault(args, process_args) is None,
        options_of(o, args, process_args),
    ensures
        o.execution_format == Some(ExecutionFormat::OfficialRouted) <==> args.contains("--mode"@)
            && process_args.contains("official-routed"@),
        o.execution_format != Some(ExecutionFormat::OfficialRouted) ==> {
            &&& o.execution_format == Some(ExecutionFormat::NativeFp4) <==> flags::flag_value(
                args,
                "--execution-format"@,
            ) == Some("native-fp4"@)
            &&& o.execution_format == Some(ExecutionFormat::Q4Transcode) <==> flags::flag_value(
                args,
                "--execution-format"@,
            ) == Some("q4-transcode"@)
            &&& o.execution_format is None <==> flags::flag_value(
                args,
                "--execution-format"@,
            ) is None
        },
{
    lemma_choices_differ();
}

/// Accepted options choose the family and the selection that are named: the
/// decoder and no router where nothing is.
pub proof fn named_choices_are_made(
    o: RunOptions,
    args: Seq<Seq<char>>,
    process_args: Seq<Seq<char>>,
)
    requires
        options_fault(args, process_args) is None,
        options_of(o, args, process_args),
    ensures
        flags::flag_value(args, "--block-family"@) == Some("mtp"@) <==> o.block_family
            == BlockFamily::Mtp,
        o.block_family == BlockFamily::Decoder ==> flags::flag_value(args, "--block-family"@) is None
            || flags::flag_value(args, "--block-family"@) == Some("decoder"@),
        o.router_mode <==> flags::flag_value(args, "--selection-mode"@) == Some("router"@),
        !o.router_mode ==> flags::flag_value(args, "--selection-mode"@) is None
            || flags::flag_value(args, "--selection-mode"@) == Some("manual"@),
{
    lemma_choices_differ();
}

/// The router is asked wherever it was asked for, and only there. Else the user's
/// experts are taken where there are any.
pub proof fn selections_follow_the_user(o: RunOptions)
    ensures
        o.spec_selection() == Selection::Gated <==> o.router_mode,
        o.spec_selection() == Selection::Manual <==> !o.router_mode && o.manual_ids is Some,
        o.spec_selection() == Selection::Routed <==> !o.router_mode && o.manual_ids is None,
        o.spec_manual_mode() <==> o.spec_selection() == Selection::Manual,
        o.manual_weights_raw is None ==> o.spec_uniform_weights(),
{
}

/// Options are accepted exactly when what is required is there and every choice
/// and list can be read.
pub proof fn options_are_accepted(args: Seq<Seq<char>>, process_args: Seq<Seq<char>>)
    ensures
        options_fault(args, process_args) is None <==> required_fault(args) is None
            && selection_fault(args) is None && list_flag_fault(args, "--layers"@) is None
            && seeds_flag_fault(args, "--seeds"@) is None && list_flag_fault(
            args,
            "--expert-ids"@,
        ) is None && format_fault(args, process_args) is None && family_fault(args) is None,
        required_fault(args) is None ==> flags::flag_value(args, "--parse-dir"@) is Some
            && flags::flag_value(args, "--model-dir"@) is Some && flags::flag_number(
            args,
            "--layer"@,
            usize::MAX as nat,
        ) is Some,
        options_fault(args, process_args) matches Some(f) ==> f.kind
            == error::CudaErrorKind::InvalidInput,
{
    if let Some(raw) = flags::flag_value(args, "--layers"@) {
        lemma_list_faults_are_input(text::split_on(raw, ','), 0);
    }
    if let Some(raw) = flags::flag_value(args, "--seeds"@) {
        lemma_list_faults_are_input(text::split_on(raw, ','), 0);
    }
    if let Some(raw) = flags::flag_value(args, "--expert-ids"@) {
        lemma_list_faults_are_input(text::split_on(raw, ','), 0);
    }
}

proof fn lemma_list_faults_are_input(pieces: Seq<Seq<char>>, from: int)
    ensures
        flags::pieces_fault(pieces, from) matches Some(f) ==> f.kind
            == error::CudaErrorKind::InvalidInput,
    decreases pieces.len() - from,
{
    if 0 <= from < pieces.len() {
        lemma_list_faults_are_input(pieces, from + 1);
    }
}

/// The number behind a flag is the one that the flag sets.
pub proof fn numbers_are_set_by_their_flags(
    o: RunOptions,
    args: Seq<Seq<char>>,
    process_args: Seq<Seq<char>>,
    i: int,
    n: usize,
)
    requires
        options_of(o, args, process_args),
        0 <= i < args.len() - 1,
        args[i + 1] == text::decimal(n as nat),
        n <= u64::MAX,
        forall|j: int| 0 <= j < i ==> #[trigger] args[j] != args[i],
    ensures
        args[i] == "--layer"@ ==> o.layer == n,
        args[i] == "--seed"@ ==> o.seed == n,
        args[i] == "--cache-bytes"@ ==> o.cache_bytes == n,
        args[i] == "--warmup"@ ==> o.warmup == n,
        args[i] == "--repeat"@ ==> o.repeat == n,
        args[i] == "--input-id"@ ==> o.input_id == Some(n),
{
    let most = usize::MAX as nat;
    flags::numbers_behind_flags_are_read(args, args[i], i, n as nat, most, 0);
    flags::numbers_behind_flags_are_read(args, args[i], i, n as nat, most, 1);
    flags::numbers_behind_flags_are_read(args, args[i], i, n as nat, u64::MAX as nat, 42);
}

/// Without its flag an option has its default: no cache, no warmup, one run, and
/// the seed forty-two.
pub proof fn options_have_defaults(
    o: RunOptions,
    args: Seq<Seq<char>>,
    process_args: Seq<Seq<char>>,
)
    requires
        options_of(o, args, process_args),
    ensures
        !args.contains("--seed"@) ==> o.seed == 42,
        !args.contains("--cache-bytes"@) ==> o.cache_bytes == 0,
        !args.contains("--warmup"@) ==> o.warmup == 0,
        !args.contains("--repeat"@) ==> o.repeat == 1,
        !args.contains("--input-id"@) ==> o.input_id is None,
        !args.contains("--expert-ids"@) ==> o.manual_ids is None,
        !args.contains("--block-family"@) ==> o.block_family == BlockFamily::Decoder,
{
    let most = usize::MAX as nat;
    if !args.contains("--seed"@) {
        flags::absent_flags_leave_defaults(args, "--seed"@, u64::MAX as nat, 42);
    }
    if !args.contains("--cache-bytes"@) {
        flags::absent_flags_leave_defaults(args, "--cache-bytes"@, most, 0);
    }
    if !args.contains("--warmup"@) {
        flags::absent_flags_leave_defaults(args, "--warmup"@, most, 0);
    }
    if !args.contains("--repeat"@) {
        flags::absent_flags_leave_defaults(args, "--repeat"@, most, 1);
    }
    if !args.contains("--input-id"@) {
        flags::absent_flags_leave_defaults(args, "--input-id"@, most, 0);
    }
    if !args.contains("--expert-ids"@) {
        flags::absent_flags_leave_defaults(args, "--expert-ids"@, most, 0);
    }
    if !args.contains("--block-family"@) {
        flags::absent_flags_leave_defaults(args, "--block-family"@, most, 0);
    }
}

} // verus!
