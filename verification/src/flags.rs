//! Command-line flags and the lists of numbers that they carry.

use crate::error;
use crate::error::CudaError;
use crate::text;
use vstd::prelude::*;
use vstd::string::*;

verus! {

// ---------------------------------------------------------------------------
// Flags
// ---------------------------------------------------------------------------

/// The argument behind the first `name` at or after `from` that has one behind it.
pub open spec fn value_from(args: Seq<Seq<char>>, name: Seq<char>, from: int) -> Option<Seq<char>>
    decreases args.len() - from,
{
    if from < 0 || from + 1 >= args.len() {
        None
    } else if args[from] == name {
        Some(args[from + 1])
    } else {
        value_from(args, name, from + 1)
    }
}

/// The value of flag `name`: the argument behind its first occurrence.
pub open spec fn flag_value(args: Seq<Seq<char>>, name: Seq<char>) -> Option<Seq<char>> {
    value_from(args, name, 0)
}

/// The value of flag `name`, read as a number up to `max`.
pub open spec fn flag_number(args: Seq<Seq<char>>, name: Seq<char>, max: nat) -> Option<nat> {
    match flag_value(args, name) {
        Some(v) => text::parse_decimal(v, max),
        None => None,
    }
}

/// The value of flag `name`, read as a number, or `default` where there is none.
pub open spec fn flag_number_or(
    args: Seq<Seq<char>>,
    name: Seq<char>,
    max: nat,
    default: nat,
) -> nat {
    match flag_number(args, name, max) {
        Some(n) => n,
        None => default,
    }
}

/// The view of an optional string.
pub open spec fn opt_view(s: Option<String>) -> Option<Seq<char>> {
    match s {
        Some(t) => Some(t@),
        None => None,
    }
}

/// The value of flag `name`.
pub fn parse_flag(args: &[String], name: &str) -> (value: Option<String>)
    ensures
        opt_view(value) == flag_value(text::views(args@), name@),
{
    let wanted = name.to_owned();
    let ghost all = text::views(args@);
    let mut i: usize = 0;
    while args.len() >= 1 && i < args.len() - 1
        invariant
            i <= args@.len(),
            all == text::views(args@),
            wanted@ == name@,
            flag_value(all, name@) == value_from(all, name@, i as int),
        decreases args@.len() - i,
    {
        assert(all[i as int] == args@[i as int]@ && all[i + 1] == args@[i + 1]@);
        if args[i] == wanted {
            return Some(args[i + 1].clone());
        }
        i = i + 1;
    }
    None
}

/// Whether `name` is among the arguments.
pub fn has_flag(args: &[String], name: &str) -> (found: bool)
    ensures
        found == text::views(args@).contains(name@),
{
    text::list_contains(args, name)
}

/// The value of flag `name`, read as a number.
pub fn usize_flag(args: &[String], name: &str) -> (n: Option<usize>)
    ensures
        match n {
            Some(v) => flag_number(text::views(args@), name@, usize::MAX as nat) == Some(v as nat),
            None => flag_number(text::views(args@), name@, usize::MAX as nat) is None,
        },
{
    match parse_flag(args, name) {
        Some(v) => text::parse_usize(v.as_str()),
        None => None,
    }
}

/// The value of flag `name`, read as a number, or `default`.
pub fn usize_flag_or(args: &[String], name: &str, default: usize) -> (n: usize)
    ensures
        n == flag_number_or(text::views(args@), name@, usize::MAX as nat, default as nat),
{
    match usize_flag(args, name) {
        Some(v) => v,
        None => default,
    }
}

/// The value of flag `name`, read as a 64-bit number, or `default`.
pub fn u64_flag_or(args: &[String], name: &str, default: u64) -> (n: u64)
    ensures
        n == flag_number_or(text::views(args@), name@, u64::MAX as nat, default as nat),
{
    match parse_flag(args, name) {
        Some(v) => match text::parse_u64(v.as_str()) {
            Some(n) => n,
            None => default,
        },
        None => default,
    }
}

// ---------------------------------------------------------------------------
// Lists of numbers
// ---------------------------------------------------------------------------

/// What is wrong with the first piece, at or after `from`, that is no number.
pub open spec fn pieces_fault(pieces: Seq<Seq<char>>, from: int) -> Option<error::Fault>
    decreases pieces.len() - from,
{
    if from < 0 || from >= pieces.len() {
        None
    } else if text::parse_decimal(text::trimmed(pieces[from]), usize::MAX as nat) is None {
        Some(
            error::invalid(
                error::Source::Flags,
                "parse comma-separated usize"@,
                "invalid integer: '"@ + pieces[from] + "'"@,
            ),
        )
    } else {
        pieces_fault(pieces, from + 1)
    }
}

/// `ns` are the numbers that the pieces denote.
pub open spec fn numbers_of(ns: Seq<usize>, pieces: Seq<Seq<char>>) -> bool {
    &&& ns.len() == pieces.len()
    &&& forall|i: int|
        0 <= i < ns.len() ==> text::parse_decimal(
            text::trimmed(pieces[i]),
            usize::MAX as nat,
        ) == Some(#[trigger] ns[i] as nat)
}

/// What is wrong with `raw` as a list of numbers.
pub open spec fn list_fault(raw: Seq<char>) -> Option<error::Fault> {
    pieces_fault(text::split_on(raw, ','), 0)
}

/// `ns` is the list of numbers that `raw` denotes.
pub open spec fn is_list(ns: Seq<usize>, raw: Seq<char>) -> bool {
    numbers_of(ns, text::split_on(raw, ','))
}

/// Reads numbers separated by commas. White space around a number is skipped.
pub fn parse_comma_separated_usize(raw: &str) -> (r: Result<Vec<usize>, CudaError>)
    ensures
        match r {
            Ok(ns) => list_fault(raw@) is None && is_list(ns@, raw@),
            Err(e) => list_fault(raw@) == Some(e@),
        },
{
    let pieces = text::split_text(raw, ',');
    let ghost all = text::views(pieces@);
    let mut ns: Vec<usize> = Vec::new();
    let mut i: usize = 0;
    while i < pieces.len()
        invariant
            i <= pieces@.len(),
            all == text::views(pieces@),
            all == text::split_on(raw@, ','),
            ns@.len() == i,
            list_fault(raw@) == pieces_fault(all, i as int),
            forall|k: int|
                0 <= k < ns@.len() ==> text::parse_decimal(
                    text::trimmed(all[k]),
                    usize::MAX as nat,
                ) == Some(#[trigger] ns@[k] as nat),
        decreases pieces@.len() - i,
    {
        assert(all[i as int] == pieces@[i as int]@);
        let piece = text::trim_text(pieces[i].as_str());
        match text::parse_usize(piece.as_str()) {
            Some(n) => {
                ns.push(n);
            },
            None => {
                let mut m = "invalid integer: '".to_owned();
                m.append(pieces[i].as_str());
                m.append("'");
                return Err(
                    error::raise_invalid(
                        error::Source::Flags,
                        "parse comma-separated usize",
                        m,
                    ),
                );
            },
        }
        i = i + 1;
    }
    Ok(ns)
}

/// One end of a seed range.
pub open spec fn range_end(s: Seq<char>) -> Option<nat> {
    text::parse_decimal(text::trimmed(s), usize::MAX as nat)
}

/// The numbers from `lo` to `hi`, both included.
pub open spec fn inclusive(lo: nat, hi: nat) -> Seq<usize> {
    if lo <= hi {
        Seq::new((hi - lo + 1) as nat, |i: int| (lo + i) as usize)
    } else {
        Seq::empty()
    }
}

/// What is wrong with `raw` as a specification of seeds.
pub open spec fn seeds_fault(raw: Seq<char>) -> Option<error::Fault> {
    match text::find_text(raw, seq![':']) {
        Some(i) => {
            let lo = raw.take(i);
            let hi = raw.skip(i + 1);
            if range_end(lo) is None {
                Some(
                    error::invalid(
                        error::Source::Flags,
                        "parse seed range"@,
                        "invalid lo: '"@ + lo + "'"@,
                    ),
                )
            } else if range_end(hi) is None {
                Some(
                    error::invalid(
                        error::Source::Flags,
                        "parse seed range"@,
                        "invalid hi: '"@ + hi + "'"@,
                    ),
                )
            } else {
                None
            }
        },
        None => list_fault(raw),
    }
}

/// `ns` are the seeds that `raw` specifies.
pub open spec fn is_seeds(ns: Seq<usize>, raw: Seq<char>) -> bool {
    match text::find_text(raw, seq![':']) {
        Some(i) => ns == inclusive(range_end(raw.take(i))->0, range_end(raw.skip(i + 1))->0),
        None => is_list(ns, raw),
    }
}

fn bad_end(prefix: &str, end: &str) -> (e: CudaError)
    ensures
        e@ == error::invalid(error::Source::Flags, "parse seed range"@, prefix@ + end@ + "'"@),
{
    let mut m = prefix.to_owned();
    m.append(end);
    m.append("'");
    error::raise_invalid(error::Source::Flags, "parse seed range", m)
}

/// Reads a specification of seeds: `0` is one seed, `0:127` is a range with both
/// ends, `0,5,10` is a list.
pub fn parse_seed_range(raw: &str) -> (r: Result<Vec<usize>, CudaError>)
    ensures
        match r {
            Ok(ns) => seeds_fault(raw@) is None && is_seeds(ns@, raw@),
            Err(e) => seeds_fault(raw@) == Some(e@),
        },
{
    let chars = text::chars_of(raw);
    let mut colon: Vec<char> = Vec::new();
    colon.push(':');
    assert(colon@ == seq![':']);
    proof {
        text::find_from_is_first(raw@, seq![':'], 0);
    }
    match text::find_chars(chars.as_slice(), colon.as_slice(), 0) {
        Some(i) => {
            assert(text::occurs_at(raw@, colon@, i as int));
            assert(i < raw@.len());
            let lo_text = text::string_of(chars.as_slice(), 0, i);
            let hi_text = text::string_of(chars.as_slice(), i + 1, chars.len());
            assert(lo_text@ == raw@.take(i as int));
            assert(hi_text@ == raw@.skip(i + 1));
            let lo: usize = match text::parse_usize(text::trim_text(lo_text.as_str()).as_str()) {
                Some(n) => n,
                None => {
                    return Err(bad_end("invalid lo: '", lo_text.as_str()));
                },
            };
            let hi: usize = match text::parse_usize(text::trim_text(hi_text.as_str()).as_str()) {
                Some(n) => n,
                None => {
                    return Err(bad_end("invalid hi: '", hi_text.as_str()));
                },
            };
            Ok(count_up(lo, hi))
        },
        None => parse_comma_separated_usize(raw),
    }
}

/// The numbers from `lo` to `hi`, both included.
fn count_up(lo: usize, hi: usize) -> (ns: Vec<usize>)
    ensures
        ns@ == inclusive(lo as nat, hi as nat),
{
    let mut ns: Vec<usize> = Vec::new();
    if lo > hi {
        return ns;
    }
    let ghost all = inclusive(lo as nat, hi as nat);
    let mut next: usize = lo;
    while next < hi
        invariant
            lo <= next <= hi,
            all == inclusive(lo as nat, hi as nat),
            ns@ == all.take(next - lo),
        decreases hi - next,
    {
        assert(all.take(next - lo + 1) == all.take(next - lo).push(next));
        ns.push(next);
        next = next + 1;
    }
    assert(all == all.take(hi - lo).push(hi));
    ns.push(hi);
    ns
}

// ---------------------------------------------------------------------------
// Laws
// ---------------------------------------------------------------------------

/// The value of a flag is what stands behind its first occurrence. A flag has none
/// where it does not occur, but perhaps at the very end.
pub proof fn values_follow_their_flag(args: Seq<Seq<char>>, name: Seq<char>)
    ensures
        match flag_value(args, name) {
            Some(v) => exists|i: int|
                0 <= i < args.len() - 1 && #[trigger] args[i] == name && v == args[i + 1]
                    && forall|j: int| 0 <= j < i ==> #[trigger] args[j] != name,
            None => forall|j: int| 0 <= j < args.len() - 1 ==> #[trigger] args[j] != name,
        },
{
    lemma_value_from(args, name, 0);
}

proof fn lemma_value_from(args: Seq<Seq<char>>, name: Seq<char>, from: int)
    requires
        0 <= from,
    ensures
        match value_from(args, name, from) {
            Some(v) => exists|i: int|
                from <= i < args.len() - 1 && #[trigger] args[i] == name && v == args[i + 1]
                    && forall|j: int| from <= j < i ==> #[trigger] args[j] != name,
            None => forall|j: int| from <= j < args.len() - 1 ==> #[trigger] args[j] != name,
        },
    decreases args.len() - from,
{
    if from + 1 < args.len() {
        lemma_value_from(args, name, from + 1);
        if args[from] == name {
            assert(args[from] == name);
        }
    }
}

/// A number that is written behind a flag is read back. Where there is none the
/// default holds.
pub proof fn numbers_behind_flags_are_read(
    args: Seq<Seq<char>>,
    name: Seq<char>,
    i: int,
    n: nat,
    max: nat,
    default: nat,
)
    requires
        0 <= i < args.len() - 1,
        args[i] == name,
        forall|j: int| 0 <= j < i ==> #[trigger] args[j] != name,
        args[i + 1] == text::decimal(n),
        n <= max,
    ensures
        flag_number(args, name, max) == Some(n),
        flag_number_or(args, name, max, default) == n,
{
    values_follow_their_flag(args, name);
    if let Some(v) = flag_value(args, name) {
        let k = choose|k: int|
            0 <= k < args.len() - 1 && #[trigger] args[k] == name && v == args[k + 1] && forall|
                j: int,
            |
                0 <= j < k ==> #[trigger] args[j] != name;
        assert(k == i) by {
            if k < i {
                assert(args[k] != name);
            } else if i < k {
                assert(args[i] != name);
            }
        }
    } else {
        assert(args[i] != name);
    }
    text::parse_decimal_roundtrip(n, max);
}

/// A flag that does not occur leaves the default.
pub proof fn absent_flags_leave_defaults(
    args: Seq<Seq<char>>,
    name: Seq<char>,
    max: nat,
    default: nat,
)
    requires
        !args.contains(name),
    ensures
        flag_value(args, name) is None,
        flag_number_or(args, name, max, default) == default,
{
    values_follow_their_flag(args, name);
    if flag_value(args, name) is Some {
        let i = choose|i: int|
            0 <= i < args.len() - 1 && #[trigger] args[i] == name && flag_value(args, name)
                == Some(args[i + 1]) && forall|j: int| 0 <= j < i ==> #[trigger] args[j] != name;
        assert(args.contains(args[i]));
    }
}

/// A list is accepted exactly when every piece is a number.
pub proof fn lists_of_numbers_are_accepted(pieces: Seq<Seq<char>>)
    ensures
        pieces_fault(pieces, 0) is None <==> forall|i: int|
            0 <= i < pieces.len() ==> text::parse_decimal(
                text::trimmed(#[trigger] pieces[i]),
                usize::MAX as nat,
            ) is Some,
{
    lemma_pieces(pieces, 0);
}

proof fn lemma_pieces(pieces: Seq<Seq<char>>, from: int)
    requires
        0 <= from <= pieces.len(),
    ensures
        pieces_fault(pieces, from) is None <==> forall|i: int|
            from <= i < pieces.len() ==> text::parse_decimal(
                text::trimmed(#[trigger] pieces[i]),
                usize::MAX as nat,
            ) is Some,
    decreases pieces.len() - from,
{
    if from < pieces.len() {
        lemma_pieces(pieces, from + 1);
    }
}

/// A range holds its two ends and every number between them, and nothing else, in
/// order.
pub proof fn ranges_hold_both_ends(lo: nat, hi: nat)
    requires
        hi <= usize::MAX,
    ensures
        forall|n: usize| #[trigger] inclusive(lo, hi).contains(n) <==> lo <= n <= hi,
        forall|i: int, j: int|
            0 <= i < j < inclusive(lo, hi).len() ==> #[trigger] inclusive(lo, hi)[i]
                < #[trigger] inclusive(lo, hi)[j],
        lo <= hi ==> inclusive(lo, hi).len() == hi - lo + 1,
{
    let all = inclusive(lo, hi);
    assert forall|n: usize| #[trigger] all.contains(n) <==> lo <= n <= hi by {
        if lo <= n <= hi {
            assert(all[n - lo] == n);
        }
    }
}

/// Seeds written as two numbers with a colon between them are all numbers from one
/// to the other.
pub proof fn seed_ranges_are_read_back(lo: usize, hi: usize, ns: Seq<usize>)
    requires
        is_seeds(ns, text::decimal(lo as nat) + seq![':'] + text::decimal(hi as nat)),
    ensures
        seeds_fault(text::decimal(lo as nat) + seq![':'] + text::decimal(hi as nat)) is None,
        forall|n: usize| #[trigger] ns.contains(n) <==> lo <= n <= hi,
{
    let (a, b) = (text::decimal(lo as nat), text::decimal(hi as nat));
    let raw = a + seq![':'] + b;
    text::decimal_digits(lo as nat);
    text::decimal_digits(hi as nat);
    text::find_from_is_first(raw, seq![':'], 0);
    let at = a.len() as int;
    assert(raw.subrange(at, at + 1) == seq![':']);
    assert(text::occurs_at(raw, seq![':'], at));
    let i = text::find_text(raw, seq![':'])->0;
    assert(i == at) by {
        if i < at {
            assert(raw.subrange(i, i + 1)[0] == raw[i]);
            assert(raw[i] == a[i]);
            assert(text::is_digit(a[i]));
            assert(seq![':'][0] == ':');
        }
    }
    assert(raw.take(at) == a);
    assert(raw.skip(at + 1) == b);
    assert(text::trimmed(a) == a) by {
        assert(text::is_digit(a[0]) && text::is_digit(a.last()));
    }
    assert(text::trimmed(b) == b) by {
        assert(text::is_digit(b[0]) && text::is_digit(b.last()));
    }
    text::parse_decimal_roundtrip(lo as nat, usize::MAX as nat);
    text::parse_decimal_roundtrip(hi as nat, usize::MAX as nat);
    ranges_hold_both_ends(lo as nat, hi as nat);
}

/// A list is refused for one piece that is no number, wherever it stands, and for
/// nothing else.
pub proof fn one_bad_piece_spoils_a_list(raw: Seq<char>)
    ensures
        list_fault(raw) is None <==> forall|i: int|
            0 <= i < text::split_on(raw, ',').len() ==> text::parse_decimal(
                text::trimmed(#[trigger] text::split_on(raw, ',')[i]),
                usize::MAX as nat,
            ) is Some,
{
    lemma_bad_pieces(text::split_on(raw, ','), 0);
}

proof fn lemma_bad_pieces(pieces: Seq<Seq<char>>, from: int)
    requires
        0 <= from <= pieces.len(),
    ensures
        pieces_fault(pieces, from) is None <==> forall|i: int|
            from <= i < pieces.len() ==> text::parse_decimal(
                text::trimmed(#[trigger] pieces[i]),
                usize::MAX as nat,
            ) is Some,
    decreases pieces.len() - from,
{
    if from < pieces.len() {
        lemma_bad_pieces(pieces, from + 1);
        let first = text::parse_decimal(text::trimmed(pieces[from]), usize::MAX as nat);
        if first is Some && pieces_fault(pieces, from) is None {
            assert forall|i: int| from <= i < pieces.len() implies text::parse_decimal(
                text::trimmed(#[trigger] pieces[i]),
                usize::MAX as nat,
            ) is Some by {
                if i > from {
                    assert(from + 1 <= i);
                }
            }
        }
    }
}

} // verus!
