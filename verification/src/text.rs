//! Text primitives: exact models of the string operations the rest of the
//! library is specified with.
//!
//! A string is modelled by its sequence of characters. Each operation has a
//! spec function on `Seq<char>` and an executable counterpart whose contract
//! equates the two.

use vstd::prelude::*;

verus! {

/// `String::push`: the character becomes the last one of the string.
pub assume_specification[ String::push ](s: &mut String, c: char)
    ensures
        final(s)@ == old(s)@.push(c),
;

// ---------------------------------------------------------------------------
// Conversions
// ---------------------------------------------------------------------------

/// The characters of every string in a list.
pub open spec fn views(list: Seq<String>) -> Seq<Seq<char>> {
    list.map_values(|s: String| s@)
}

/// The characters of `s`, in order.
pub fn chars_of(s: &str) -> (v: Vec<char>)
    ensures
        v@ == s@,
{
    let mut v: Vec<char> = Vec::new();
    for c in it: s.chars()
        invariant
            it.seq() == s@,
            v@ == s@.take(it.index() as int),
    {
        v.push(c);
        assert(s@.take(it.index() + 1) == s@.take(it.index() as int).push(c));
    }
    assert(s@.take(s@.len() as int) == s@);
    v
}

/// The string made of the characters `chars[from..to]`.
pub fn string_of(chars: &[char], from: usize, to: usize) -> (s: String)
    requires
        from <= to <= chars@.len(),
    ensures
        s@ == chars@.subrange(from as int, to as int),
{
    let mut s = String::new();
    let mut i: usize = from;
    while i < to
        invariant
            from <= i <= to <= chars@.len(),
            s@ == chars@.subrange(from as int, i as int),
        decreases to - i,
    {
        s.push(chars[i]);
        i = i + 1;
        assert(chars@.subrange(from as int, i as int) == chars@.subrange(
            from as int,
            i - 1,
        ).push(chars@[i - 1]));
    }
    s
}

/// Whether two strings hold the same characters.
pub fn text_eq(a: &str, b: &str) -> (same: bool)
    ensures
        same == (a@ == b@),
{
    a.to_owned() == b.to_owned()
}

/// Whether some string of `list` holds the characters of `wanted`.
pub fn list_contains(list: &[String], wanted: &str) -> (found: bool)
    ensures
        found == views(list@).contains(wanted@),
{
    let wanted_owned = wanted.to_owned();
    let mut i: usize = 0;
    while i < list.len()
        invariant
            i <= list@.len(),
            wanted_owned@ == wanted@,
            forall|j: int| 0 <= j < i ==> list@[j]@ != wanted@,
        decreases list@.len() - i,
    {
        if list[i] == wanted_owned {
            assert(views(list@)[i as int] == wanted@);
            return true;
        }
        i = i + 1;
    }
    assert forall|j: int| 0 <= j < views(list@).len() implies views(list@)[j] != wanted@ by {
        assert(views(list@)[j] == list@[j]@);
    }
    false
}

// ---------------------------------------------------------------------------
// Searching
// ---------------------------------------------------------------------------

/// `pat` stands in `s` at position `i`.
pub open spec fn occurs_at(s: Seq<char>, pat: Seq<char>, i: int) -> bool {
    0 <= i && i + pat.len() <= s.len() && s.subrange(i, i + pat.len()) == pat
}

/// `pat` stands somewhere in `s`.
pub open spec fn contains_text(s: Seq<char>, pat: Seq<char>) -> bool {
    exists|i: int| occurs_at(s, pat, i)
}

/// The first position at or after `from` where `pat` stands in `s`.
pub open spec fn find_from(s: Seq<char>, pat: Seq<char>, from: int) -> Option<int>
    decreases s.len() + 1 - from,
{
    if from < 0 || from + pat.len() > s.len() {
        None
    } else if occurs_at(s, pat, from) {
        Some(from)
    } else {
        find_from(s, pat, from + 1)
    }
}

/// The first position where `pat` stands in `s`.
pub open spec fn find_text(s: Seq<char>, pat: Seq<char>) -> Option<int> {
    find_from(s, pat, 0)
}

/// `find_from` answers with the least position that qualifies, and with `None`
/// only where there is none.
pub proof fn find_from_is_first(s: Seq<char>, pat: Seq<char>, from: int)
    requires
        0 <= from,
    ensures
        match find_from(s, pat, from) {
            Some(i) => {
                &&& from <= i
                &&& occurs_at(s, pat, i)
                &&& forall|j: int| from <= j < i ==> !occurs_at(s, pat, j)
            },
            None => forall|j: int| from <= j ==> !occurs_at(s, pat, j),
        },
    decreases s.len() + 1 - from,
{
    if from + pat.len() <= s.len() && !occurs_at(s, pat, from) {
        find_from_is_first(s, pat, from + 1);
    }
}

/// A text is contained exactly where it is found.
pub proof fn contains_iff_found(s: Seq<char>, pat: Seq<char>)
    ensures
        contains_text(s, pat) == (find_text(s, pat) is Some),
{
    find_from_is_first(s, pat, 0);
    if contains_text(s, pat) {
        let i = choose|i: int| occurs_at(s, pat, i);
        assert(occurs_at(s, pat, i));
    }
}

/// `s` ends with `pat`.
pub open spec fn ends_with_text(s: Seq<char>, pat: Seq<char>) -> bool {
    occurs_at(s, pat, s.len() - pat.len())
}

fn occurs_in(s: &[char], pat: &[char], i: usize) -> (found: bool)
    ensures
        found == occurs_at(s@, pat@, i as int),
{
    if pat.len() > s.len() || i > s.len() - pat.len() {
        return false;
    }
    let end: usize = s.len();
    let mut k: usize = 0;
    while k < pat.len()
        invariant
            end == s@.len(),
            i + pat@.len() <= end,
            k <= pat@.len(),
            forall|j: int| 0 <= j < k ==> s@[i + j] == pat@[j],
        decreases pat@.len() - k,
    {
        if s[i + k] != pat[k] {
            assert(s@.subrange(i as int, i + pat@.len())[k as int] != pat@[k as int]);
            return false;
        }
        k = k + 1;
    }
    assert(s@.subrange(i as int, i + pat@.len()) == pat@);
    true
}

/// Where `pat` first stands in `s`, at or after `from`.
pub fn find_chars(s: &[char], pat: &[char], from: usize) -> (at: Option<usize>)
    requires
        from <= s@.len(),
    ensures
        match at {
            Some(i) => find_from(s@, pat@, from as int) == Some(i as int),
            None => find_from(s@, pat@, from as int) is None,
        },
{
    let mut i: usize = from;
    while pat.len() <= s.len() && i <= s.len() - pat.len()
        invariant
            from <= i <= s@.len() + 1,
            find_from(s@, pat@, from as int) == find_from(s@, pat@, i as int),
        decreases s@.len() + 1 - i,
    {
        if occurs_in(s, pat, i) {
            return Some(i);
        }
        if i == s.len() {
            assert(pat@.len() == 0);
            assert(s@.subrange(i as int, i as int) == pat@);
        }
        i = i + 1;
    }
    None
}

/// Whether `pat` stands somewhere in `s`.
pub fn text_contains(s: &str, pat: &str) -> (found: bool)
    ensures
        found == contains_text(s@, pat@),
{
    proof {
        contains_iff_found(s@, pat@);
    }
    let chars = chars_of(s);
    let wanted = chars_of(pat);
    find_chars(chars.as_slice(), wanted.as_slice(), 0).is_some()
}

/// Whether `s` ends with `pat`.
pub fn text_ends_with(s: &str, pat: &str) -> (found: bool)
    ensures
        found == ends_with_text(s@, pat@),
{
    let chars = chars_of(s);
    let wanted = chars_of(pat);
    if wanted.len() > chars.len() {
        return false;
    }
    occurs_in(chars.as_slice(), wanted.as_slice(), chars.len() - wanted.len())
}

// ---------------------------------------------------------------------------
// Order
// ---------------------------------------------------------------------------

/// `a` comes before `b` in the order of dictionaries.
pub open spec fn text_less(a: Seq<char>, b: Seq<char>) -> bool
    decreases a.len(),
{
    if b.len() == 0 {
        false
    } else if a.len() == 0 {
        true
    } else if a[0] != b[0] {
        (a[0] as int) < (b[0] as int)
    } else {
        text_less(a.skip(1), b.skip(1))
    }
}

/// Of two different texts one comes first, and only one.
pub proof fn text_order_is_total(a: Seq<char>, b: Seq<char>)
    ensures
        a == b ==> !text_less(a, b),
        a != b ==> text_less(a, b) != text_less(b, a),
    decreases a.len(),
{
    if a.len() > 0 && b.len() > 0 && a[0] == b[0] {
        text_order_is_total(a.skip(1), b.skip(1));
        if a.skip(1) == b.skip(1) {
            assert(a == seq![a[0]] + a.skip(1));
            assert(b == seq![b[0]] + b.skip(1));
        }
    } else if a.len() == 0 && b.len() == 0 {
        assert(a == b);
    }
}

/// The order of texts carries over.
pub proof fn text_order_carries(a: Seq<char>, b: Seq<char>, c: Seq<char>)
    requires
        text_less(a, b),
        text_less(b, c),
    ensures
        text_less(a, c),
    decreases a.len(),
{
    if a.len() > 0 && a[0] == b[0] && b[0] == c[0] {
        text_order_carries(a.skip(1), b.skip(1), c.skip(1));
    }
}

/// Whether `a` comes before `b`.
pub fn is_text_less(a: &str, b: &str) -> (yes: bool)
    ensures
        yes == text_less(a@, b@),
{
    let x = chars_of(a);
    let y = chars_of(b);
    let mut i: usize = 0;
    assert(a@.skip(0) == a@ && b@.skip(0) == b@);
    while i < x.len() && i < y.len()
        invariant
            x@ == a@,
            y@ == b@,
            i <= x@.len(),
            i <= y@.len(),
            text_less(a@, b@) == text_less(a@.skip(i as int), b@.skip(i as int)),
        decreases x@.len() - i,
    {
        assert(a@.skip(i as int)[0] == x@[i as int] && b@.skip(i as int)[0] == y@[i as int]);
        assert(a@.skip(i as int).skip(1) == a@.skip(i + 1));
        assert(b@.skip(i as int).skip(1) == b@.skip(i + 1));
        if x[i] != y[i] {
            return x[i] < y[i];
        }
        i = i + 1;
    }
    i < y.len()
}

/// The texts grow from one to the next.
pub open spec fn ascending_texts(list: Seq<Seq<char>>) -> bool {
    forall|i: int, j: int|
        0 <= i < j < list.len() ==> text_less(#[trigger] list[i], #[trigger] list[j])
}

/// Puts a text into an ascending list, where it is not yet.
pub fn insert_text(list: &mut Vec<String>, t: &str)
    requires
        ascending_texts(views(old(list)@)),
    ensures
        ascending_texts(views(final(list)@)),
        views(final(list)@).to_set() == views(old(list)@).to_set().insert(t@),
{
    let ghost was = views(list@);
    let mut i: usize = 0;
    while i < list.len() && is_text_less(list[i].as_str(), t)
        invariant
            i <= list@.len(),
            was == views(list@),
            forall|j: int| 0 <= j < i ==> text_less(#[trigger] was[j], t@),
        decreases list@.len() - i,
    {
        assert(was[i as int] == list@[i as int]@);
        i = i + 1;
    }
    if i < list.len() && text_eq(list[i].as_str(), t) {
        assert(was[i as int] == t@);
        assert(was.to_set().insert(t@) == was.to_set());
        return;
    }
    list.insert(i, t.to_owned());
    proof {
        let now = views(list@);
        assert(now == was.insert(i as int, t@));
        if i < was.len() {
            text_order_is_total(was[i as int], t@);
        }
        assert forall|a: int, b: int| 0 <= a < b < now.len() implies text_less(
            #[trigger] now[a],
            #[trigger] now[b],
        ) by {
            let x = if a < i {
                a
            } else {
                a - 1
            };
            let y = if b < i {
                b
            } else {
                b - 1
            };
            if a == i {
                assert(now[b] == was[y]);
                if y > i {
                    text_order_carries(t@, was[i as int], was[y]);
                }
            } else if b == i {
                assert(now[a] == was[x]);
            } else {
                assert(now[a] == was[x] && now[b] == was[y]);
            }
        }
        assert forall|x: Seq<char>| #[trigger] now.to_set().contains(x) <==> was.to_set().insert(
            t@,
        ).contains(x) by {
            if now.contains(x) {
                let a = choose|a: int| 0 <= a < now.len() && now[a] == x;
                if a < i {
                    assert(was[a] == x);
                } else if a > i {
                    assert(was[a - 1] == x);
                }
            }
            if was.contains(x) {
                let a = choose|a: int| 0 <= a < was.len() && was[a] == x;
                if a < i {
                    assert(now[a] == x);
                } else {
                    assert(now[a + 1] == x);
                }
            }
            if x == t@ {
                assert(now[i as int] == x);
            }
        }
        assert(now.to_set() == was.to_set().insert(t@));
    }
}

// ---------------------------------------------------------------------------
// Splitting and trimming
// ---------------------------------------------------------------------------

/// The pieces of `s` between the separators `sep`: one more than there are
/// separators, empty pieces kept.
pub open spec fn split_on(s: Seq<char>, sep: char) -> Seq<Seq<char>>
    decreases s.len(),
{
    if s.len() == 0 {
        seq![Seq::empty()]
    } else {
        let pieces = split_on(s.drop_last(), sep);
        if s.last() == sep {
            pieces.push(Seq::empty())
        } else {
            pieces.update(pieces.len() - 1, pieces.last().push(s.last()))
        }
    }
}

/// Splitting never gives an empty list.
pub proof fn split_on_nonempty(s: Seq<char>, sep: char)
    ensures
        split_on(s, sep).len() >= 1,
    decreases s.len(),
{
    if s.len() > 0 {
        split_on_nonempty(s.drop_last(), sep);
    }
}

/// The pieces with a separator between each two of them.
pub open spec fn join_with(pieces: Seq<Seq<char>>, sep: char) -> Seq<char>
    decreases pieces.len(),
{
    if pieces.len() == 0 {
        Seq::empty()
    } else if pieces.len() == 1 {
        pieces[0]
    } else {
        join_with(pieces.drop_last(), sep).push(sep) + pieces.last()
    }
}

/// Joining the pieces of a split gives the text back, and no piece holds the
/// separator.
pub proof fn split_join_roundtrip(s: Seq<char>, sep: char)
    ensures
        join_with(split_on(s, sep), sep) == s,
        forall|i: int| 0 <= i < split_on(s, sep).len() ==> !(#[trigger] split_on(s, sep)[i]).contains(sep),
    decreases s.len(),
{
    split_on_nonempty(s, sep);
    if s.len() > 0 {
        let before = s.drop_last();
        split_join_roundtrip(before, sep);
        split_on_nonempty(before, sep);
        let pieces = split_on(before, sep);
        let all = split_on(s, sep);
        if s.last() == sep {
            assert(all.drop_last() == pieces);
            assert(join_with(all, sep) == before.push(sep) + Seq::<char>::empty());
            assert(before.push(sep) + Seq::<char>::empty() == s);
        } else {
            assert(all.drop_last() == pieces.drop_last());
            let tail = pieces.last().push(s.last());
            assert(all.last() == tail);
            if pieces.len() == 1 {
                assert(join_with(all, sep) == tail);
                assert(tail == s);
            } else {
                let head = join_with(pieces.drop_last(), sep).push(sep);
                assert(join_with(pieces, sep) == head + pieces.last());
                assert(join_with(all, sep) == head + tail);
                assert(head + tail == (head + pieces.last()).push(s.last()));
                assert(before.push(s.last()) == s);
            }
            assert forall|i: int| 0 <= i < all.len() implies !(#[trigger] all[i]).contains(sep) by {
                if i == all.len() - 1 {
                    let p = pieces[pieces.len() - 1];
                    assert(!p.contains(sep));
                    assert forall|k: int| 0 <= k < tail.len() implies tail[k] != sep by {
                        if k < p.len() {
                            assert(p[k] == tail[k]);
                        }
                    }
                } else {
                    assert(all[i] == pieces[i]);
                }
            }
        }
    }
}

/// The pieces of `s` between the separators `sep`.
pub fn split_text(s: &str, sep: char) -> (pieces: Vec<String>)
    ensures
        views(pieces@) == split_on(s@, sep),
{
    let chars = chars_of(s);
    let mut done: Vec<String> = Vec::new();
    let mut current = String::new();
    let mut i: usize = 0;
    assert(s@.take(0) == Seq::<char>::empty());
    assert(views(done@).push(current@) == split_on(s@.take(0), sep));
    while i < chars.len()
        invariant
            i <= chars@.len(),
            chars@ == s@,
            views(done@).push(current@) == split_on(s@.take(i as int), sep),
        decreases chars@.len() - i,
    {
        let c = chars[i];
        let ghost before = views(done@).push(current@);
        assert(s@.take(i + 1).drop_last() == s@.take(i as int));
        assert(s@.take(i + 1).last() == c);
        if c == sep {
            let ghost finished = done@.push(current);
            done.push(current);
            current = String::new();
            assert(views(done@).push(current@) == before.push(Seq::empty()));
        } else {
            current.push(c);
            assert(views(done@).push(current@) == before.update(
                before.len() - 1,
                before.last().push(c),
            ));
        }
        i = i + 1;
    }
    assert(s@.take(i as int) == s@);
    let ghost last = current@;
    let ghost front = done@;
    done.push(current);
    assert(views(done@) == views(front).push(last));
    done
}

/// White space as Unicode's `White_Space` property lists it.
pub open spec fn is_space(c: char) -> bool {
    let u = c as u32;
    ||| 0x09 <= u <= 0x0D
    ||| u == 0x20
    ||| u == 0x85
    ||| u == 0xA0
    ||| u == 0x1680
    ||| 0x2000 <= u <= 0x200A
    ||| u == 0x2028
    ||| u == 0x2029
    ||| u == 0x202F
    ||| u == 0x205F
    ||| u == 0x3000
}

fn space(c: char) -> (yes: bool)
    ensures
        yes == is_space(c),
{
    let u: u32 = c as u32;
    (0x09 <= u && u <= 0x0D) || u == 0x20 || u == 0x85 || u == 0xA0 || u == 0x1680 || (0x2000 <= u
        && u <= 0x200A) || u == 0x2028 || u == 0x2029 || u == 0x202F || u == 0x205F || u == 0x3000
}

/// `s` without its leading white space.
pub open spec fn trim_start(s: Seq<char>) -> Seq<char>
    decreases s.len(),
{
    if s.len() > 0 && is_space(s[0]) {
        trim_start(s.skip(1))
    } else {
        s
    }
}

/// `s` without its trailing white space.
pub open spec fn trim_end(s: Seq<char>) -> Seq<char>
    decreases s.len(),
{
    if s.len() > 0 && is_space(s.last()) {
        trim_end(s.drop_last())
    } else {
        s
    }
}

/// `s` without leading and trailing white space.
pub open spec fn trimmed(s: Seq<char>) -> Seq<char> {
    trim_end(trim_start(s))
}

/// `s` without leading and trailing white space.
pub fn trim_text(s: &str) -> (t: String)
    ensures
        t@ == trimmed(s@),
{
    let chars = chars_of(s);
    let mut from: usize = 0;
    assert(s@.skip(0) == s@);
    while from < chars.len() && space(chars[from])
        invariant
            from <= chars@.len(),
            chars@ == s@,
            trim_start(s@) == trim_start(s@.skip(from as int)),
        decreases chars@.len() - from,
    {
        assert(s@.skip(from as int).skip(1) == s@.skip(from + 1));
        from = from + 1;
    }
    let ghost start = s@.skip(from as int);
    assert(trim_start(s@) == start);
    let mut to: usize = chars.len();
    assert(start == s@.subrange(from as int, to as int));
    while to > from && space(chars[to - 1])
        invariant
            from <= to <= chars@.len(),
            chars@ == s@,
            trim_end(start) == trim_end(s@.subrange(from as int, to as int)),
        decreases to,
    {
        assert(s@.subrange(from as int, to as int).drop_last() == s@.subrange(
            from as int,
            to - 1,
        ));
        to = to - 1;
    }
    string_of(chars.as_slice(), from, to)
}

// ---------------------------------------------------------------------------
// Letters
// ---------------------------------------------------------------------------

/// The lower-case form of an ASCII letter; any other character as it is.
pub open spec fn lower_char(c: char) -> char {
    if 'A' <= c <= 'Z' {
        (c as u32 + 32) as char
    } else {
        c
    }
}

/// The upper-case form of an ASCII letter; any other character as it is.
pub open spec fn upper_char(c: char) -> char {
    if 'a' <= c <= 'z' {
        (c as u32 - 32) as char
    } else {
        c
    }
}

/// `s` with its ASCII letters in lower case.
pub open spec fn ascii_lower(s: Seq<char>) -> Seq<char> {
    s.map_values(|c: char| lower_char(c))
}

/// `s` with its ASCII letters in upper case.
pub open spec fn ascii_upper(s: Seq<char>) -> Seq<char> {
    s.map_values(|c: char| upper_char(c))
}

fn lower(c: char) -> (l: char)
    ensures
        l == lower_char(c),
{
    if 'A' <= c && c <= 'Z' {
        (c as u8 + 32) as char
    } else {
        c
    }
}

fn upper(c: char) -> (u: char)
    ensures
        u == upper_char(c),
{
    if 'a' <= c && c <= 'z' {
        (c as u8 - 32) as char
    } else {
        c
    }
}

/// `s` with its ASCII letters in lower case.
pub fn lower_text(s: &str) -> (t: String)
    ensures
        t@ == ascii_lower(s@),
{
    let chars = chars_of(s);
    let mut t = String::new();
    let mut i: usize = 0;
    while i < chars.len()
        invariant
            i <= chars@.len(),
            chars@ == s@,
            t@ == ascii_lower(s@).take(i as int),
        decreases chars@.len() - i,
    {
        t.push(lower(chars[i]));
        i = i + 1;
        assert(ascii_lower(s@).take(i as int) == ascii_lower(s@).take(i - 1).push(
            ascii_lower(s@)[i - 1],
        ));
    }
    assert(ascii_lower(s@).take(i as int) == ascii_lower(s@));
    t
}

/// `s` with its ASCII letters in upper case.
pub fn upper_text(s: &str) -> (t: String)
    ensures
        t@ == ascii_upper(s@),
{
    let chars = chars_of(s);
    let mut t = String::new();
    let mut i: usize = 0;
    while i < chars.len()
        invariant
            i <= chars@.len(),
            chars@ == s@,
            t@ == ascii_upper(s@).take(i as int),
        decreases chars@.len() - i,
    {
        t.push(upper(chars[i]));
        i = i + 1;
        assert(ascii_upper(s@).take(i as int) == ascii_upper(s@).take(i - 1).push(
            ascii_upper(s@)[i - 1],
        ));
    }
    assert(ascii_upper(s@).take(i as int) == ascii_upper(s@));
    t
}

// ---------------------------------------------------------------------------
// Numbers
// ---------------------------------------------------------------------------

/// A decimal digit.
pub open spec fn is_digit(c: char) -> bool {
    '0' <= c <= '9'
}

/// The character of the digit `d`.
pub open spec fn digit_char(d: nat) -> char {
    (48 + d) as char
}

/// The digit that a character stands for.
pub open spec fn digit_value(c: char) -> nat {
    (c as int - 48) as nat
}

/// Every character is a digit.
pub open spec fn all_digits(s: Seq<char>) -> bool {
    forall|i: int| 0 <= i < s.len() ==> is_digit(#[trigger] s[i])
}

/// The number that a row of digits denotes.
pub open spec fn digits_value(s: Seq<char>) -> nat
    decreases s.len(),
{
    if s.len() == 0 {
        0
    } else {
        digits_value(s.drop_last()) * 10 + digit_value(s.last())
    }
}

/// The digits of `n`, without leading zeros.
pub open spec fn decimal(n: nat) -> Seq<char>
    decreases n,
{
    if n < 10 {
        seq![digit_char(n)]
    } else {
        decimal(n / 10).push(digit_char(n % 10))
    }
}

/// The number that `s` denotes: an optional `+` and then one digit or more.
/// There is none where the number exceeds `max`.
pub open spec fn parse_decimal(s: Seq<char>, max: nat) -> Option<nat> {
    let body = if s.len() > 0 && s[0] == '+' {
        s.skip(1)
    } else {
        s
    };
    if body.len() > 0 && all_digits(body) && digits_value(body) <= max {
        Some(digits_value(body))
    } else {
        None
    }
}

/// The digits of a number denote it.
pub proof fn decimal_digits(n: nat)
    ensures
        decimal(n).len() >= 1,
        all_digits(decimal(n)),
        digits_value(decimal(n)) == n,
    decreases n,
{
    let s = decimal(n);
    if n < 10 {
        assert(s.drop_last() == Seq::<char>::empty());
        assert(digits_value(s.drop_last()) == 0);
    } else {
        decimal_digits(n / 10);
        assert(s.drop_last() == decimal(n / 10));
    }
}

/// Reading the digits of a number gives the number back.
pub proof fn parse_decimal_roundtrip(n: nat, max: nat)
    requires
        n <= max,
    ensures
        parse_decimal(decimal(n), max) == Some(n),
{
    decimal_digits(n);
    assert(is_digit(decimal(n)[0]));
}

/// A longer row of digits denotes at least as much as its beginning.
proof fn digits_value_grows(s: Seq<char>, k: int)
    requires
        0 <= k <= s.len(),
    ensures
        digits_value(s.take(k)) <= digits_value(s),
    decreases s.len() - k,
{
    if k < s.len() {
        digits_value_grows(s, k + 1);
        assert(s.take(k + 1).drop_last() == s.take(k));
    } else {
        assert(s.take(k) == s);
    }
}

/// The value of the digits `chars[from..to]`, or nothing where it exceeds `max`.
pub fn digits_between(chars: &[char], from: usize, to: usize, max: u64) -> (n: Option<u64>)
    requires
        from <= to <= chars@.len(),
        all_digits(chars@.subrange(from as int, to as int)),
    ensures
        match n {
            Some(v) => v <= max && digits_value(chars@.subrange(from as int, to as int)) == v,
            None => digits_value(chars@.subrange(from as int, to as int)) > max,
        },
{
    let ghost all = chars@.subrange(from as int, to as int);
    let mut n: u64 = 0;
    let mut i: usize = from;
    assert(all.take(0) == Seq::<char>::empty());
    while i < to
        invariant
            from <= i <= to <= chars@.len(),
            all == chars@.subrange(from as int, to as int),
            all_digits(all),
            n == digits_value(all.take(i - from)),
            n <= max,
        decreases to - i,
    {
        let c = chars[i];
        assert(all[i - from] == c);
        assert(is_digit(c));
        let d: u64 = (c as u32 - 48) as u64;
        proof {
            assert(all.take(i - from + 1).drop_last() == all.take(i - from));
            assert(digits_value(all.take(i - from + 1)) == n * 10 + d);
            digits_value_grows(all, i - from + 1);
        }
        if d > max || n > max / 10 || n * 10 > max - d {
            return None;
        }
        n = n * 10 + d;
        i = i + 1;
    }
    assert(all.take(i - from) == all);
    Some(n)
}

/// How many characters from `from` on are digits, up to the first that is not.
pub open spec fn digit_run(s: Seq<char>, from: int) -> int
    decreases s.len() - from,
{
    if 0 <= from < s.len() && is_digit(s[from]) {
        1 + digit_run(s, from + 1)
    } else {
        0
    }
}

/// The end of the row of digits that begins at `from`.
pub fn digits_end(chars: &[char], from: usize) -> (end: usize)
    requires
        from <= chars@.len(),
    ensures
        from <= end <= chars@.len(),
        end - from == digit_run(chars@, from as int),
        all_digits(chars@.subrange(from as int, end as int)),
{
    let mut end: usize = from;
    while end < chars.len() && '0' <= chars[end] && chars[end] <= '9'
        invariant
            from <= end <= chars@.len(),
            digit_run(chars@, from as int) == end - from + digit_run(chars@, end as int),
            all_digits(chars@.subrange(from as int, end as int)),
        decreases chars@.len() - end,
    {
        end = end + 1;
    }
    end
}

/// The number that `s` denotes, or nothing where it denotes none up to `max`.
pub fn parse_u64_max(s: &str, max: u64) -> (n: Option<u64>)
    ensures
        match n {
            Some(v) => parse_decimal(s@, max as nat) == Some(v as nat),
            None => parse_decimal(s@, max as nat) is None,
        },
{
    let chars = chars_of(s);
    let from: usize = if chars.len() > 0 && chars[0] == '+' {
        1
    } else {
        0
    };
    let ghost body = if s@.len() > 0 && s@[0] == '+' {
        s@.skip(1)
    } else {
        s@
    };
    assert(body == chars@.subrange(from as int, chars@.len() as int));
    if chars.len() == from {
        return None;
    }
    let end: usize = digits_end(chars.as_slice(), from);
    if end < chars.len() {
        proof {
            digit_run_stops(chars@, from as int);
            assert(!is_digit(body[end - from]));
        }
        return None;
    }
    digits_between(chars.as_slice(), from, chars.len(), max)
}

/// A row of digits ends at the end of the text or before a character that is
/// no digit.
proof fn digit_run_stops(s: Seq<char>, from: int)
    requires
        0 <= from <= s.len(),
    ensures
        0 <= digit_run(s, from) <= s.len() - from,
        from + digit_run(s, from) < s.len() ==> !is_digit(s[from + digit_run(s, from)]),
    decreases s.len() - from,
{
    if from < s.len() && is_digit(s[from]) {
        digit_run_stops(s, from + 1);
    }
}

/// The number that `s` denotes, as `str::parse::<u64>` reads it.
pub fn parse_u64(s: &str) -> (n: Option<u64>)
    ensures
        match n {
            Some(v) => parse_decimal(s@, u64::MAX as nat) == Some(v as nat),
            None => parse_decimal(s@, u64::MAX as nat) is None,
        },
{
    parse_u64_max(s, u64::MAX)
}

/// The number that `s` denotes, as `str::parse::<usize>` reads it.
pub fn parse_usize(s: &str) -> (n: Option<usize>)
    ensures
        match n {
            Some(v) => parse_decimal(s@, usize::MAX as nat) == Some(v as nat),
            None => parse_decimal(s@, usize::MAX as nat) is None,
        },
{
    match parse_u64_max(s, usize::MAX as u64) {
        Some(v) => Some(v as usize),
        None => None,
    }
}

/// Writes the digits of `n` behind `out`.
pub fn push_decimal(out: &mut String, n: u64)
    ensures
        final(out)@ == old(out)@ + decimal(n as nat),
    decreases n,
{
    if n >= 10 {
        push_decimal(out, n / 10);
    }
    let d: u8 = (n % 10) as u8;
    out.push((48 + d) as char);
    proof {
        let head = if n >= 10 {
            decimal((n / 10) as nat)
        } else {
            Seq::empty()
        };
        assert(old(out)@ + head.push(digit_char((n % 10) as nat)) == (old(out)@ + head).push(
            digit_char((n % 10) as nat),
        ));
    }
}

/// Writes the digits of `n` behind `out`.
pub fn push_usize(out: &mut String, n: usize)
    ensures
        final(out)@ == old(out)@ + decimal(n as nat),
{
    push_decimal(out, n as u64);
}

/// The digits of `n`.
pub fn decimal_text(n: u64) -> (s: String)
    ensures
        s@ == decimal(n as nat),
{
    let mut s = String::new();
    push_decimal(&mut s, n);
    assert(Seq::<char>::empty() + decimal(n as nat) == decimal(n as nat));
    s
}

// ---------------------------------------------------------------------------
// Laws
// ---------------------------------------------------------------------------

/// The order of texts is that of dictionaries: a beginning comes before what it
/// begins, and of two texts that part ways the one with the smaller character does.
pub proof fn text_order_is_lexicographic(
    head: Seq<char>,
    a: char,
    b: char,
    left: Seq<char>,
    right: Seq<char>,
)
    ensures
        text_less(head, head.push(a) + left),
        (a as int) < (b as int) ==> text_less(head.push(a) + left, head.push(b) + right),
    decreases head.len(),
{
    let x = head.push(a) + left;
    let y = head.push(b) + right;
    if head.len() > 0 {
        let tail = head.skip(1);
        text_order_is_lexicographic(tail, a, b, left, right);
        assert(x.skip(1) == tail.push(a) + left);
        assert(y.skip(1) == tail.push(b) + right);
        assert(x[0] == head[0] && y[0] == head[0]);
    } else {
        assert(x[0] == a && y[0] == b);
    }
}

/// Trimming takes white space from both ends and nothing else: what is left is a
/// stretch of the text without white space at its ends, and what is cut off is all
/// white space.
pub proof fn trimming_cuts_white_space(s: Seq<char>)
    ensures
        exists|from: int, to: int|
            0 <= from <= to <= s.len() && trimmed(s) == #[trigger] s.subrange(from, to) && (
            forall|i: int| 0 <= i < from ==> is_space(#[trigger] s[i])) && (forall|i: int|
                to <= i < s.len() ==> is_space(#[trigger] s[i])),
        trimmed(s).len() > 0 ==> !is_space(trimmed(s)[0]) && !is_space(trimmed(s).last()),
{
    let a = lemma_trim_start(s);
    let t = s.skip(a);
    assert(trim_start(s) == t);
    let b = lemma_trim_end(t);
    assert(trimmed(s) == t.take(b));
    assert(t.take(b) == s.subrange(a, a + b));
    assert forall|i: int| a + b <= i < s.len() implies is_space(#[trigger] s[i]) by {
        assert(t[i - a] == s[i]);
    }
    if b > 0 {
        assert(trimmed(s)[0] == s[a]);
    }
}

proof fn lemma_trim_start(s: Seq<char>) -> (n: int)
    ensures
        0 <= n <= s.len(),
        trim_start(s) == s.skip(n),
        forall|i: int| 0 <= i < n ==> is_space(#[trigger] s[i]),
        n < s.len() ==> !is_space(s[n]),
    decreases s.len(),
{
    if s.len() > 0 && is_space(s[0]) {
        let t = s.skip(1);
        let n = lemma_trim_start(t);
        assert(t.skip(n) == s.skip(n + 1));
        assert forall|i: int| 0 <= i < n + 1 implies is_space(#[trigger] s[i]) by {
            if i > 0 {
                assert(t[i - 1] == s[i]);
            }
        }
        if n < t.len() {
            assert(t[n] == s[n + 1]);
        }
        n + 1
    } else {
        assert(s.skip(0) == s);
        0
    }
}

proof fn lemma_trim_end(s: Seq<char>) -> (n: int)
    ensures
        0 <= n <= s.len(),
        trim_end(s) == s.take(n),
        forall|i: int| n <= i < s.len() ==> is_space(#[trigger] s[i]),
        n > 0 ==> !is_space(s[n - 1]),
    decreases s.len(),
{
    if s.len() > 0 && is_space(s.last()) {
        let t = s.drop_last();
        let n = lemma_trim_end(t);
        assert(t.take(n) == s.take(n));
        assert forall|i: int| n <= i < s.len() implies is_space(#[trigger] s[i]) by {
            if i < t.len() {
                assert(t[i] == s[i]);
            }
        }
        n
    } else {
        assert(s.take(s.len() as int) == s);
        s.len() as int
    }
}

/// Lower and upper case change ASCII letters only, and undo each other on them.
pub proof fn cases_undo_each_other(c: char)
    ensures
        'A' <= c <= 'Z' ==> 'a' <= lower_char(c) <= 'z' && upper_char(lower_char(c)) == c,
        'a' <= c <= 'z' ==> 'A' <= upper_char(c) <= 'Z' && lower_char(upper_char(c)) == c,
        !('A' <= c <= 'Z') ==> lower_char(c) == c,
        !('a' <= c <= 'z') ==> upper_char(c) == c,
{
}

/// What stands between two texts is contained in the whole.
pub proof fn middles_are_contained(head: Seq<char>, middle: Seq<char>, tail: Seq<char>)
    ensures
        contains_text(head + middle + tail, middle),
{
    let s = head + middle + tail;
    let i = head.len() as int;
    assert(s.subrange(i, i + middle.len()) == middle);
    assert(occurs_at(s, middle, i));
}

/// A text between the end of one text and the beginning of another is contained in
/// the whole, with both.
pub proof fn rows_are_there(
    front: Seq<char>,
    before: Seq<char>,
    x: Seq<char>,
    after: Seq<char>,
    head: Seq<char>,
    tail: Seq<char>,
)
    requires
        ends_with_text(before, head),
        occurs_at(after, tail, 0),
    ensures
        contains_text(front + before + x + after, head + x + tail),
{
    let s = front + before + x + after;
    let row = head + x + tail;
    let i = front.len() + before.len() - head.len();
    let start = before.len() - head.len();
    assert forall|k: int| 0 <= k < row.len() implies s.subrange(i, i + row.len())[k] == row[k] by {
        if k < head.len() {
            assert(before.subrange(start, before.len() as int)[k] == before[start + k]);
        } else if k >= head.len() + x.len() {
            let j = k - head.len() - x.len();
            assert(after.subrange(0, tail.len() as int)[j] == after[j]);
        }
    }
    assert(s.subrange(i, i + row.len()) == row);
    assert(occurs_at(s, row, i));
}

/// What is contained stays so when more is written behind it.
pub proof fn rows_stay(s: Seq<char>, x: Seq<char>, y: Seq<char>, row: Seq<char>)
    requires
        contains_text(s, row),
    ensures
        contains_text(s + x + y, row),
{
    let i = choose|i: int| occurs_at(s, row, i);
    let all = s + x + y;
    assert(all.subrange(i, i + row.len()) == s.subrange(i, i + row.len()));
    assert(occurs_at(all, row, i));
}

/// What is contained in a text is contained in all that contains the text.
pub proof fn containment_carries(s: Seq<char>, part: Seq<char>, row: Seq<char>)
    requires
        contains_text(s, part),
        contains_text(part, row),
    ensures
        contains_text(s, row),
{
    let i = choose|i: int| occurs_at(s, part, i);
    let j = choose|j: int| occurs_at(part, row, j);
    assert(s.subrange(i + j, i + j + row.len()) == s.subrange(i, i + part.len()).subrange(
        j,
        j + row.len(),
    ));
    assert(occurs_at(s, row, i + j));
}

/// Letters stand in the same order in either case, and all of a text is changed
/// letter by letter.
pub proof fn letters_keep_their_order(c: char, d: char, s: Seq<char>, i: int)
    requires
        0 <= i < s.len(),
    ensures
        'A' <= c < d <= 'Z' ==> lower_char(c) < lower_char(d),
        'a' <= c < d <= 'z' ==> upper_char(c) < upper_char(d),
        ascii_lower(s).len() == s.len(),
        ascii_lower(s)[i] == lower_char(s[i]),
        ascii_upper(s).len() == s.len(),
        ascii_upper(s)[i] == upper_char(s[i]),
{
}

/// White space is made of twenty-five characters: tab to carriage return, the space,
/// and the wider and narrower spaces and line ends beyond ASCII.
pub proof fn white_space_is_known(c: char)
    ensures
        (c as u32) < 0x80 ==> (is_space(c) <==> seq![
            '\t',
            '\n',
            '\u{b}',
            '\u{c}',
            '\r',
            ' ',
        ].contains(c)),
        (c as u32) >= 0x80 && !(0x2000 <= c as u32 <= 0x200f) ==> (is_space(c) <==> seq![
            '\u{85}',
            '\u{a0}',
            '\u{1680}',
            '\u{2028}',
            '\u{2029}',
            '\u{202f}',
            '\u{205f}',
            '\u{3000}',
        ].contains(c)),
        0x2000 <= c as u32 <= 0x200f ==> (is_space(c) <==> c < '\u{200b}'),
{
    let a = seq!['\t', '\n', '\u{b}', '\u{c}', '\r', ' '];
    let b = seq![
        '\u{85}',
        '\u{a0}',
        '\u{1680}',
        '\u{2028}',
        '\u{2029}',
        '\u{202f}',
        '\u{205f}',
        '\u{3000}',
    ];
    assert(a[0] == '\t' && a[1] == '\n' && a[2] == '\u{b}' && a[3] == '\u{c}' && a[4] == '\r'
        && a[5] == ' ');
    assert(b[0] == '\u{85}' && b[1] == '\u{a0}' && b[2] == '\u{1680}' && b[3] == '\u{2028}'
        && b[4] == '\u{2029}' && b[5] == '\u{202f}' && b[6] == '\u{205f}' && b[7]
        == '\u{3000}');
}

} // verus!
