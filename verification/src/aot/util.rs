//! Names, paths and sizes.

use crate::aot::types::{ModelConfig, ResolvedModelFiles};
use crate::flags;
use crate::ieee;
use crate::text;
use vstd::arithmetic::power2::*;
use vstd::prelude::*;
use vstd::string::*;

verus! {

/// The text of a moment, given in seconds since the epoch. A moment before the
/// epoch has none, and reads as the epoch.
pub open spec fn stamp_text(seconds: Option<u64>) -> Seq<char> {
    "unix:"@ + text::decimal(
        match seconds {
            Some(s) => s as nat,
            None => 0,
        },
    )
}

/// The text of the present moment, given in seconds since the epoch.
pub fn now_rfc3339ish(seconds: Option<u64>) -> (s: String)
    ensures
        s@ == stamp_text(seconds),
{
    let mut s = "unix:".to_owned();
    match seconds {
        Some(n) => {
            text::push_decimal(&mut s, n);
        },
        None => {
            text::push_decimal(&mut s, 0);
        },
    }
    s
}

// ---------------------------------------------------------------------------
// Numbers in names
// ---------------------------------------------------------------------------

/// The number that stands behind the first `needle` in `s`.
pub open spec fn number_after(s: Seq<char>, needle: Seq<char>) -> Option<u32> {
    match text::find_text(s, needle) {
        Some(i) => {
            let start = i + needle.len();
            let run = text::digit_run(s, start);
            let value = text::digits_value(s.subrange(start, start + run));
            if run > 0 && value <= u32::MAX {
                Some(value as u32)
            } else {
                None
            }
        },
        None => None,
    }
}

/// The number that stands behind the first `needle` in `s`: its digits up to the
/// first other character.
pub fn extract_number_after(s: &str, needle: &str) -> (n: Option<u32>)
    ensures
        n == number_after(s@, needle@),
{
    let chars = text::chars_of(s);
    let wanted = text::chars_of(needle);
    proof {
        text::find_from_is_first(s@, needle@, 0);
    }
    match text::find_chars(chars.as_slice(), wanted.as_slice(), 0) {
        Some(i) => {
            let start: usize = i + wanted.len();
            let end: usize = text::digits_end(chars.as_slice(), start);
            if end == start {
                return None;
            }
            match text::digits_between(chars.as_slice(), start, end, u32::MAX as u64) {
                Some(v) => Some(v as u32),
                None => None,
            }
        },
        None => None,
    }
}

// ---------------------------------------------------------------------------
// Model files
// ---------------------------------------------------------------------------

/// What the file system says of a model's path.
#[derive(Debug, Clone)]
pub struct ModelProbe {
    pub is_file: bool,
    pub file_name: String,
    /// `config.json` in the directory of the path, where it has one.
    pub sibling_config: Option<String>,
    pub sibling_config_exists: bool,
    /// `model.safetensors.index.json` and `config.json` under the path.
    pub index_path: String,
    pub index_exists: bool,
    pub config_path: String,
    pub config_exists: bool,
}

/// What is wrong with a model's path.
pub open spec fn model_path_fault(model: Seq<char>, p: ModelProbe) -> Option<Seq<char>> {
    if p.is_file {
        if !text::ends_with_text(p.file_name@, ".index.json"@) {
            Some(
                "expected a model directory or model.safetensors.index.json, got "@ + model,
            )
        } else if p.sibling_config is None {
            Some("index json path has no parent directory"@)
        } else if !p.sibling_config_exists {
            Some("missing config.json next to "@ + model)
        } else {
            None
        }
    } else if !p.index_exists {
        Some("missing "@ + p.index_path@)
    } else if !p.config_exists {
        Some("missing "@ + p.config_path@)
    } else {
        None
    }
}

fn said(prefix: &str, rest: &str) -> (s: String)
    ensures
        s@ == prefix@ + rest@,
{
    let mut s = prefix.to_owned();
    s.append(rest);
    s
}

/// The files that describe a model, given by its index file or its directory.
pub fn resolve_model_files(model: &str, probe: &ModelProbe) -> (r: Result<ResolvedModelFiles, String>)
    ensures
        match r {
            Ok(f) => {
                &&& model_path_fault(model@, *probe) is None
                &&& probe.is_file ==> f.index_path@ == model@ && Some(f.config_path@)
                    == flags::opt_view(probe.sibling_config)
                &&& !probe.is_file ==> f.index_path@ == probe.index_path@ && f.config_path@
                    == probe.config_path@
            },
            Err(e) => model_path_fault(model@, *probe) == Some(e@),
        },
{
    if probe.is_file {
        if !text::text_ends_with(probe.file_name.as_str(), ".index.json") {
            return Err(
                said("expected a model directory or model.safetensors.index.json, got ", model),
            );
        }
        return match &probe.sibling_config {
            Some(config) => {
                if !probe.sibling_config_exists {
                    return Err(said("missing config.json next to ", model));
                }
                Ok(ResolvedModelFiles { index_path: model.to_owned(), config_path: config.clone() })
            },
            None => Err("index json path has no parent directory".to_owned()),
        };
    }
    if !probe.index_exists {
        return Err(said("missing ", probe.index_path.as_str()));
    }
    if !probe.config_exists {
        return Err(said("missing ", probe.config_path.as_str()));
    }
    Ok(
        ResolvedModelFiles {
            index_path: probe.index_path.clone(),
            config_path: probe.config_path.clone(),
        },
    )
}

/// The name of a model: the type in its configuration, else the name of its file,
/// and `qwen36` where that is empty.
pub open spec fn model_name(file_name: Option<Seq<char>>, config: ModelConfig) -> Seq<char> {
    let name = match config.model_type {
        Some(t) => Some(t@),
        None => file_name,
    };
    match name {
        Some(n) => if n.len() > 0 {
            n
        } else {
            "qwen36"@
        },
        None => "qwen36"@,
    }
}

fn named_or_default(name: &str) -> (s: String)
    ensures
        s@ == if name@.len() > 0 {
            name@
        } else {
            "qwen36"@
        },
{
    proof {
        reveal_strlit("");
        if name@.len() == 0 {
            assert(name@ == ""@);
        }
    }
    if text::text_eq(name, "") {
        "qwen36".to_owned()
    } else {
        name.to_owned()
    }
}

/// The name of a model.
pub fn infer_model_name(file_name: &Option<String>, config: &ModelConfig) -> (s: String)
    ensures
        s@ == model_name(flags::opt_view(*file_name), *config),
{
    match &config.model_type {
        Some(t) => named_or_default(t.as_str()),
        None => match file_name {
            Some(n) => named_or_default(n.as_str()),
            None => "qwen36".to_owned(),
        },
    }
}

// ---------------------------------------------------------------------------
// Sizes
// ---------------------------------------------------------------------------

/// How a size is written.
#[verifier::ext_equal]
pub enum SizeText {
    Empty,
    Scaled { number: Seq<char>, shift: nat },
    Raw { number: Seq<char> },
}

/// The text without its last two characters and the white space around the rest.
pub open spec fn before_unit(upper: Seq<char>) -> Seq<char> {
    text::trimmed(upper.take(upper.len() - 2))
}

/// A size as it is written: a number and a unit, or a number of bytes.
pub open spec fn size_text(s: Seq<char>) -> SizeText {
    let t = text::trimmed(s);
    let upper = text::ascii_upper(t);
    if t.len() == 0 {
        SizeText::Empty
    } else if text::ends_with_text(upper, "GB"@) {
        SizeText::Scaled { number: before_unit(upper), shift: 30 }
    } else if text::ends_with_text(upper, "MB"@) {
        SizeText::Scaled { number: before_unit(upper), shift: 20 }
    } else if text::ends_with_text(upper, "KB"@) {
        SizeText::Scaled { number: before_unit(upper), shift: 10 }
    } else {
        SizeText::Raw { number: t }
    }
}

/// The number in front of a size's unit.
pub open spec fn scaled_number(s: Seq<char>) -> Option<Seq<char>> {
    match size_text(s) {
        SizeText::Scaled { number, .. } => Some(number),
        _ => None,
    }
}

fn strip_unit(upper: &str) -> (number: String)
    requires
        upper@.len() >= 2,
    ensures
        number@ == before_unit(upper@),
{
    let chars = text::chars_of(upper);
    let rest = text::string_of(chars.as_slice(), 0, chars.len() - 2);
    assert(rest@ == upper@.take(upper@.len() - 2));
    text::trim_text(rest.as_str())
}

fn split_size(s: &str) -> (parts: (Option<(String, u32)>, Option<String>))
    ensures
        match size_text(s@) {
            SizeText::Empty => parts.0 is None && parts.1 is None,
            SizeText::Scaled { number, shift } => {
                &&& parts.0 matches Some((n, k)) && n@ == number && k == shift && k <= 30
                &&& parts.1 is None
            },
            SizeText::Raw { number } => {
                &&& parts.0 is None
                &&& parts.1 matches Some(n) && n@ == number
            },
        },
{
    let t = text::trim_text(s);
    let upper = text::upper_text(t.as_str());
    proof {
        reveal_strlit("");
        reveal_strlit("GB");
        reveal_strlit("MB");
        reveal_strlit("KB");
        if t@.len() == 0 {
            assert(t@ == ""@);
        }
    }
    if text::text_eq(t.as_str(), "") {
        return (None, None);
    }
    if text::text_ends_with(upper.as_str(), "GB") {
        return (Some((strip_unit(upper.as_str()), 30)), None);
    }
    if text::text_ends_with(upper.as_str(), "MB") {
        return (Some((strip_unit(upper.as_str()), 20)), None);
    }
    if text::text_ends_with(upper.as_str(), "KB") {
        return (Some((strip_unit(upper.as_str()), 10)), None);
    }
    (None, Some(t))
}

/// The number in front of a size's unit, where the size has one.
pub fn bytes_number(s: &str) -> (number: Option<String>)
    ensures
        flags::opt_view(number) == scaled_number(s@),
{
    match split_size(s).0 {
        Some((n, _)) => Some(n),
        None => None,
    }
}

/// How many bytes a size stands for. `number` is the bit pattern of the fraction
/// in front of the unit, where there is one and it can be read.
pub open spec fn size_bytes(s: Seq<char>, number: Option<u64>) -> Option<int> {
    match size_text(s) {
        SizeText::Empty => None,
        SizeText::Scaled { shift, .. } => match number {
            Some(bits) => Some(ieee::scaled_whole(bits, shift)),
            None => None,
        },
        SizeText::Raw { number } => match text::parse_decimal(number, u64::MAX as nat) {
            Some(n) => Some(n as int),
            None => None,
        },
    }
}

/// How many bytes a size like `3GB`, `512 mb` or `8192` stands for. `number` is
/// the bit pattern of the fraction that `bytes_number` gives, read as a
/// double-precision number.
pub fn parse_bytes_human(s: &str, number: Option<u64>) -> (n: Option<u64>)
    ensures
        match n {
            Some(v) => size_bytes(s@, number) == Some(v as int),
            None => size_bytes(s@, number) is None,
        },
{
    match split_size(s) {
        (Some((_, shift)), _) => match number {
            Some(bits) => Some(ieee::scaled_to_u64(bits, shift)),
            None => None,
        },
        (None, Some(raw)) => text::parse_u64(raw.as_str()),
        (None, None) => None,
    }
}

/// The total size that an index gives as a number: a whole number as it is, and the
/// whole part of any other, held to the range. `fraction` is its bit pattern.
pub fn total_size_number(whole: Option<u64>, fraction: Option<u64>) -> (r: Result<u64, String>)
    ensures
        match r {
            Ok(n) => match whole {
                Some(w) => n == w,
                None => fraction is Some && n == ieee::scaled_whole(fraction->0, 0),
            },
            Err(m) => whole is None && fraction is None && m@ == "unsupported numeric total_size"@,
        },
{
    match (whole, fraction) {
        (Some(w), _) => Ok(w),
        (None, Some(bits)) => Ok(ieee::scaled_to_u64(bits, 0)),
        (None, None) => Err("unsupported numeric total_size".to_owned()),
    }
}

/// A number that is written behind a word is read back, up to the first other
/// character.
pub proof fn numbers_are_read_back(
    head: Seq<char>,
    needle: Seq<char>,
    n: u32,
    rest: Seq<char>,
)
    requires
        text::find_text(head + needle + text::decimal(n as nat) + rest, needle) == Some(
            head.len() as int,
        ),
        rest.len() > 0 ==> !text::is_digit(rest[0]),
    ensures
        number_after(head + needle + text::decimal(n as nat) + rest, needle) == Some(n),
{
    let s = head + needle + text::decimal(n as nat) + rest;
    let d = text::decimal(n as nat);
    let start = (head.len() + needle.len()) as int;
    text::decimal_digits(n as nat);
    assert(s.subrange(start, start + d.len()) == d);
    assert forall|i: int| start <= i < start + d.len() implies text::is_digit(#[trigger] s[i]) by {
        assert(s[i] == d[i - start]);
    }
    if rest.len() > 0 {
        assert(s[start + d.len()] == rest[0]);
    }
    lemma_digit_run(s, start, d.len() as int);
}

proof fn lemma_digit_run(s: Seq<char>, from: int, n: int)
    requires
        0 <= from,
        0 <= n,
        from + n <= s.len(),
        forall|i: int| from <= i < from + n ==> text::is_digit(#[trigger] s[i]),
        from + n < s.len() ==> !text::is_digit(s[from + n]),
    ensures
        text::digit_run(s, from) == n,
    decreases n,
{
    if n > 0 {
        assert(text::is_digit(s[from]));
        lemma_digit_run(s, from + 1, n - 1);
    }
}

/// A path is refused exactly where the index or the configuration that it needs is
/// not there.
pub proof fn complete_models_are_found(model: Seq<char>, p: ModelProbe)
    ensures
        !p.is_file ==> (model_path_fault(model, p) is None <==> p.index_exists && p.config_exists),
        p.is_file ==> (model_path_fault(model, p) is None <==> text::ends_with_text(
            p.file_name@,
            ".index.json"@,
        ) && p.sibling_config is Some && p.sibling_config_exists),
{
}

/// A model always has a name: the type that its configuration gives wins over the
/// name of its file.
pub proof fn models_have_names(file_name: Option<Seq<char>>, config: ModelConfig)
    ensures
        model_name(file_name, config).len() > 0,
        config.model_type matches Some(t) && t@.len() > 0 ==> model_name(file_name, config)
            == config.model_type->0@,
        config.model_type is None && file_name is Some && file_name->0.len() > 0 ==> model_name(
            file_name,
            config,
        ) == file_name->0,
{
    reveal_strlit("qwen36");
}

/// The units of sizes are powers of 1024: kilobytes, megabytes and gigabytes. A
/// size without a unit is in bytes.
pub proof fn units_are_powers_of_1024(s: Seq<char>)
    ensures
        ({
            let t = text::ascii_upper(text::trimmed(s));
            match size_text(s) {
                SizeText::Empty => t.len() == 0,
                SizeText::Scaled { number, shift } => {
                    &&& text::ends_with_text(t, "KB"@) ==> pow2(shift) == 1024
                    &&& text::ends_with_text(t, "MB"@) ==> pow2(shift) == 1024 * 1024
                    &&& text::ends_with_text(t, "GB"@) ==> pow2(shift) == 1024 * 1024 * 1024
                    &&& text::ends_with_text(t, "KB"@) || text::ends_with_text(t, "MB"@)
                        || text::ends_with_text(t, "GB"@)
                    &&& number == text::trimmed(t.take(t.len() - 2))
                },
                SizeText::Raw { number } => number == text::trimmed(s) && !text::ends_with_text(
                    t,
                    "KB"@,
                ) && !text::ends_with_text(t, "MB"@) && !text::ends_with_text(t, "GB"@),
            }
        }),
{
    lemma2_to64();
    reveal_strlit("KB");
    reveal_strlit("MB");
    reveal_strlit("GB");
    let t = text::ascii_upper(text::trimmed(s));
    assert("KB"@[0] == 'K' && "MB"@[0] == 'M' && "GB"@[0] == 'G');
    assert("KB"@.len() == 2 && "MB"@.len() == 2 && "GB"@.len() == 2);
    if t.len() >= 2 {
        let end = t.subrange(t.len() - 2, t.len() as int);
        assert(end[0] == t[t.len() - 2]);
    }
}

/// A plain number of bytes is read back.
pub proof fn plain_sizes_are_read_back(n: u64, number: Option<u64>)
    ensures
        size_bytes(text::decimal(n as nat), number) == Some(n as int),
{
    let d = text::decimal(n as nat);
    text::parse_decimal_roundtrip(n as nat, u64::MAX as nat);
    text::decimal_digits(n as nat);
    assert(text::is_digit(d[0]) && text::is_digit(d.last()));
    assert(text::trimmed(d) == d);
    let upper = text::ascii_upper(d);
    assert(upper.last() == d.last());
    units_are_powers_of_1024(d);
    reveal_strlit("KB");
    reveal_strlit("MB");
    reveal_strlit("GB");
    assert("KB"@[1] == 'B' && "MB"@[1] == 'B' && "GB"@[1] == 'B');
    if upper.len() >= 2 {
        let end = upper.subrange(upper.len() - 2, upper.len() as int);
        assert(end[1] == upper.last());
    }
}

/// The moment of a stamp can be read back; without one it is zero.
pub proof fn stamps_are_read_back(seconds: u64)
    ensures
        stamp_text(Some(seconds)).len() > 5,
        stamp_text(Some(seconds)).subrange(0, 5) == "unix:"@,
        text::parse_decimal(
            stamp_text(Some(seconds)).subrange(5, stamp_text(Some(seconds)).len() as int),
            u64::MAX as nat,
        ) == Some(seconds as nat),
        stamp_text(None) == stamp_text(Some(0)),
{
    reveal_strlit("unix:");
    let s = stamp_text(Some(seconds));
    let d = text::decimal(seconds as nat);
    text::decimal_digits(seconds as nat);
    text::parse_decimal_roundtrip(seconds as nat, u64::MAX as nat);
    assert(s.subrange(0, 5) == "unix:"@);
    assert(s.subrange(5, s.len() as int) == d);
}

} // verus!
