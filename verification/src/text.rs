//! Text primitives: the small string vocabulary the rest of the crate speaks.
//!
//! A string is modelled by the sequence of its characters. Every function here
//! states its result over that sequence, so callers never reason about bytes
//! unless they ask for them.

use vstd::prelude::*;

verus! {

/// `String::push`: the character goes at the end, nothing else changes.
pub assume_specification[ String::push ](s: &mut String, c: char)
    ensures
        final(s)@ == old(s)@.push(c),
;

// ---------------------------------------------------------------------------
// Character classes
// ---------------------------------------------------------------------------

/// The Unicode `White_Space` property.
pub open spec fn is_white(c: char) -> bool {
    let v = c as u32;
    ||| 0x09 <= v <= 0x0d
    ||| v == 0x20
    ||| v == 0x85
    ||| v == 0xa0
    ||| v == 0x1680
    ||| 0x2000 <= v <= 0x200a
    ||| v == 0x2028
    ||| v == 0x2029
    ||| v == 0x202f
    ||| v == 0x205f
    ||| v == 0x3000
}

/// The Unicode control characters (general category `Cc`).
pub open spec fn is_control(c: char) -> bool {
    let v = c as u32;
    v <= 0x1f || 0x7f <= v <= 0x9f
}

/// The controls are the two blocks below the space and from delete on; every ASCII
/// character that can be seen is neither a control nor white, and the usual spaces are
/// white.
pub proof fn lemma_character_classes(c: char)
    ensures
        is_control(c) <==> c < ' ' || ('\u{7f}' <= c && c <= '\u{9f}'),
        '!' <= c && c <= '~' ==> !is_white(c) && !is_control(c),
        c == ' ' || c == '\t' || c == '\n' || c == '\r' ==> is_white(c),
        is_hex_digit(c) <==> ('0' <= c && c <= '9') || ('a' <= c && c <= 'f') || ('A' <= c && c
            <= 'F'),
{
}

/// An ASCII hexadecimal digit, either case.
pub open spec fn is_hex_digit(c: char) -> bool {
    let v = c as u32;
    0x30 <= v <= 0x39 || 0x41 <= v <= 0x46 || 0x61 <= v <= 0x66
}

/// `c` with an ASCII capital letter made small.
pub open spec fn lower(c: char) -> char {
    if 0x41 <= c as u32 <= 0x5a {
        ((c as u32 + 32) as u8) as char
    } else {
        c
    }
}

/// `s` with every ASCII capital letter made small.
pub open spec fn lowered(s: Seq<char>) -> Seq<char> {
    Seq::new(s.len(), |i: int| lower(s[i]))
}

/// Tells whether `c` is white space.
pub fn char_is_white(c: char) -> (r: bool)
    ensures
        r == is_white(c),
{
    let v: u32 = c as u32;
    (0x09 <= v && v <= 0x0d) || v == 0x20 || v == 0x85 || v == 0xa0 || v == 0x1680 || (0x2000 <= v
        && v <= 0x200a) || v == 0x2028 || v == 0x2029 || v == 0x202f || v == 0x205f || v == 0x3000
}

/// Tells whether `c` is a control character.
pub fn char_is_control(c: char) -> (r: bool)
    ensures
        r == is_control(c),
{
    let v: u32 = c as u32;
    v <= 0x1f || (0x7f <= v && v <= 0x9f)
}

/// Tells whether `c` is an ASCII hexadecimal digit.
pub fn char_is_hex_digit(c: char) -> (r: bool)
    ensures
        r == is_hex_digit(c),
{
    let v: u32 = c as u32;
    (0x30 <= v && v <= 0x39) || (0x41 <= v && v <= 0x46) || (0x61 <= v && v <= 0x66)
}

// ---------------------------------------------------------------------------
// Strings and character vectors
// ---------------------------------------------------------------------------

/// The characters of `s`, in order.
pub fn chars_of(s: &str) -> (r: Vec<char>)
    ensures
        r@ == s@,
{
    let mut out: Vec<char> = Vec::new();
    for c in it: s.chars()
        invariant
            out@.len() == it.index(),
            it.seq() == s@,
            forall|i: int| 0 <= i < out@.len() ==> out@[i] == it.seq()[i],
    {
        out.push(c);
    }
    assert(out@ =~= s@);
    out
}

/// The string made of the characters of `chars` from `from` up to `to`.
pub fn string_of_range(chars: &[char], from: usize, to: usize) -> (r: String)
    requires
        from <= to <= chars@.len(),
    ensures
        r@ == chars@.subrange(from as int, to as int),
{
    let mut out = String::new();
    let mut i: usize = from;
    while i < to
        invariant
            from <= i <= to <= chars@.len(),
            out@ == chars@.subrange(from as int, i as int),
        decreases to - i,
    {
        out.push(chars[i]);
        i += 1;
        assert(out@ =~= chars@.subrange(from as int, i as int));
    }
    out
}

/// The text of an optional string slice.
pub open spec fn slice_view(o: Option<&str>) -> Option<Seq<char>> {
    match o {
        Some(s) => Some(s@),
        None => None,
    }
}

/// The text of an optional string.
pub open spec fn string_view(o: Option<String>) -> Option<Seq<char>> {
    match o {
        Some(s) => Some(s@),
        None => None,
    }
}

/// An optional string as an optional slice.
pub fn as_opt_str(o: &Option<String>) -> (r: Option<&str>)
    ensures
        slice_view(r) == string_view(*o),
{
    match o {
        Some(s) => Some(s.as_str()),
        None => None,
    }
}

/// Tells whether two texts hold the same characters.
pub fn same(a: &str, b: &str) -> (r: bool)
    ensures
        r == (a@ == b@),
{
    let x = a.to_owned();
    let y = b.to_owned();
    x == y
}

// ---------------------------------------------------------------------------
// Trimming, case, prefixes
// ---------------------------------------------------------------------------

/// `s` without its leading white space.
pub open spec fn trim_start(s: Seq<char>) -> Seq<char>
    decreases s.len(),
{
    if s.len() > 0 && is_white(s[0]) {
        trim_start(s.skip(1))
    } else {
        s
    }
}

/// `s` without its trailing white space.
pub open spec fn trim_end(s: Seq<char>) -> Seq<char>
    decreases s.len(),
{
    if s.len() > 0 && is_white(s.last()) {
        trim_end(s.drop_last())
    } else {
        s
    }
}

/// `s` without white space at either end.
pub open spec fn trimmed(s: Seq<char>) -> Seq<char> {
    trim_end(trim_start(s))
}

/// `t` is what stands in `s` from `i` to `j`, between white space only.
pub open spec fn is_inner(t: Seq<char>, s: Seq<char>, i: int, j: int) -> bool {
    &&& 0 <= i <= j <= s.len()
    &&& t == s.subrange(i, j)
    &&& forall|k: int| 0 <= k < i || j <= k < s.len() ==> is_white(#[trigger] s[k])
    &&& i < j ==> !is_white(s[i]) && !is_white(s[j - 1])
}

proof fn lemma_trim_start_at(s: Seq<char>) -> (i: int)
    ensures
        0 <= i <= s.len(),
        trim_start(s) == s.skip(i),
        forall|k: int| 0 <= k < i ==> is_white(#[trigger] s[k]),
        i < s.len() ==> !is_white(s[i]),
    decreases s.len(),
{
    if s.len() > 0 && is_white(s[0]) {
        let i = lemma_trim_start_at(s.skip(1));
        assert(s.skip(1).skip(i) =~= s.skip(i + 1));
        assert forall|k: int| 0 <= k < i + 1 implies is_white(#[trigger] s[k]) by {
            if k > 0 {
                assert(s[k] == s.skip(1)[k - 1]);
            }
        }
        i + 1
    } else {
        assert(s.skip(0) =~= s);
        0
    }
}

proof fn lemma_trim_end_at(s: Seq<char>) -> (j: int)
    ensures
        0 <= j <= s.len(),
        trim_end(s) == s.take(j),
        forall|k: int| j <= k < s.len() ==> is_white(#[trigger] s[k]),
        j > 0 ==> !is_white(s[j - 1]),
    decreases s.len(),
{
    if s.len() > 0 && is_white(s.last()) {
        let j = lemma_trim_end_at(s.drop_last());
        assert(s.drop_last().take(j) =~= s.take(j));
        assert forall|k: int| j <= k < s.len() implies is_white(#[trigger] s[k]) by {
            if k < s.len() - 1 {
                assert(s[k] == s.drop_last()[k]);
            }
        }
        j
    } else {
        assert(s.take(s.len() as int) =~= s);
        s.len() as int
    }
}

/// Trimming takes away white space at both ends, all of it, and nothing else.
pub proof fn lemma_trimmed_is_inner(s: Seq<char>)
    ensures
        exists|i: int, j: int| #[trigger] is_inner(trimmed(s), s, i, j),
{
    let i = lemma_trim_start_at(s);
    let rest = s.skip(i);
    let n = lemma_trim_end_at(rest);
    let j = i + n;
    assert(rest.take(n) =~= s.subrange(i, j));
    assert forall|k: int| 0 <= k < i || j <= k < s.len() implies is_white(#[trigger] s[k]) by {
        if k >= j {
            assert(s[k] == rest[k - i]);
        }
    }
    assert(is_inner(trimmed(s), s, i, j));
}

proof fn lemma_lower(c: char)
    ensures
        'A' <= c && c <= 'Z' ==> lower(c) as u32 == c as u32 - 'A' as u32 + 'a' as u32,
        c < 'A' || 'Z' < c ==> lower(c) == c,
{
}

/// Small letters stay, capital ones are made small, and nothing else changes.
pub proof fn lemma_lowered(s: Seq<char>, i: int)
    requires
        0 <= i < s.len(),
    ensures
        lowered(s).len() == s.len(),
        'A' <= s[i] && s[i] <= 'Z' ==> lowered(s)[i] as u32 == s[i] as u32 - 'A' as u32
            + 'a' as u32,
        s[i] < 'A' || 'Z' < s[i] ==> lowered(s)[i] == s[i],
        lowered(lowered(s)) == lowered(s),
{
    lemma_lower(s[i]);
    assert(lowered(lowered(s)) =~= lowered(s));
}

/// A text without white space at its ends is trimmed already.
pub proof fn lemma_trimmed_already(s: Seq<char>)
    requires
        s.len() > 0,
        !is_white(s[0]),
        !is_white(s.last()),
    ensures
        trimmed(s) == s,
{
}

/// `s` without its leading occurrences of `c`.
pub open spec fn trim_start_char(s: Seq<char>, c: char) -> Seq<char>
    decreases s.len(),
{
    if s.len() > 0 && s[0] == c {
        trim_start_char(s.skip(1), c)
    } else {
        s
    }
}

/// Removes white space from both ends.
pub fn trim(s: &str) -> (r: String)
    ensures
        r@ == trimmed(s@),
{
    let chars = chars_of(s);
    let n: usize = chars.len();
    let mut i: usize = 0;
    proof {
        assert(s@.skip(0) =~= s@);
    }
    while i < n && char_is_white(chars[i])
        invariant
            i <= n == chars@.len(),
            chars@ == s@,
            trim_start(s@) == trim_start(s@.skip(i as int)),
        decreases n - i,
    {
        proof {
            assert(s@.skip(i as int).skip(1) =~= s@.skip(i + 1));
        }
        i += 1;
    }
    let ghost head = s@.skip(i as int);
    assert(trim_start(s@) == head);
    let mut j: usize = n;
    proof {
        assert(chars@.subrange(i as int, n as int) =~= head);
    }
    while j > i && char_is_white(chars[j - 1])
        invariant
            i <= j <= n == chars@.len(),
            trim_end(head) == trim_end(chars@.subrange(i as int, j as int)),
        decreases j - i,
    {
        proof {
            assert(chars@.subrange(i as int, j as int).drop_last() =~= chars@.subrange(
                i as int,
                j - 1,
            ));
        }
        j -= 1;
    }
    string_of_range(&chars, i, j)
}

/// Removes the leading occurrences of `c`.
pub fn trim_start_matches(s: &str, c: char) -> (r: String)
    ensures
        r@ == trim_start_char(s@, c),
{
    let chars = chars_of(s);
    let n: usize = chars.len();
    let mut i: usize = 0;
    proof {
        assert(s@.skip(0) =~= s@);
    }
    while i < n && chars[i] == c
        invariant
            i <= n == chars@.len(),
            chars@ == s@,
            trim_start_char(s@, c) == trim_start_char(s@.skip(i as int), c),
        decreases n - i,
    {
        proof {
            assert(s@.skip(i as int).skip(1) =~= s@.skip(i + 1));
        }
        i += 1;
    }
    proof {
        assert(chars@.subrange(i as int, n as int) =~= s@.skip(i as int));
    }
    string_of_range(&chars, i, n)
}

/// Makes every ASCII capital letter small.
pub fn to_ascii_lowercase(s: &str) -> (r: String)
    ensures
        r@ == lowered(s@),
{
    let chars = chars_of(s);
    let mut out = String::new();
    let mut i: usize = 0;
    while i < chars.len()
        invariant
            i <= chars@.len(),
            chars@ == s@,
            out@ == lowered(s@).take(i as int),
        decreases chars@.len() - i,
    {
        let c = chars[i];
        let v: u32 = c as u32;
        if 0x41 <= v && v <= 0x5a {
            let small: u8 = (v + 32) as u8;
            out.push(small as char);
        } else {
            out.push(c);
        }
        i += 1;
        assert(out@ =~= lowered(s@).take(i as int));
    }
    assert(out@ =~= lowered(s@));
    out
}

/// `s` begins with `prefix`.
pub open spec fn has_prefix(s: Seq<char>, prefix: Seq<char>) -> bool {
    prefix.len() <= s.len() && s.take(prefix.len() as int) == prefix
}

/// `s` ends with `suffix`.
pub open spec fn has_suffix(s: Seq<char>, suffix: Seq<char>) -> bool {
    suffix.len() <= s.len() && s.skip(s.len() - suffix.len()) == suffix
}

/// `needle` stands in `s` at position `i`.
pub open spec fn occurs_at(s: Seq<char>, needle: Seq<char>, i: int) -> bool {
    0 <= i && i + needle.len() <= s.len() && s.subrange(i, i + needle.len()) == needle
}

/// `needle` stands somewhere in `s`.
pub open spec fn contains_text(s: Seq<char>, needle: Seq<char>) -> bool {
    exists|i: int| occurs_at(s, needle, i)
}

/// A part of a text occurs in it.
pub proof fn lemma_part_occurs(a: Seq<char>, part: Seq<char>, b: Seq<char>)
    ensures
        contains_text(a + part + b, part),
{
    let s = a + part + b;
    assert(s.subrange(a.len() as int, (a.len() + part.len()) as int) =~= part);
    assert(occurs_at(s, part, a.len() as int));
}

/// A text that occurs somewhere is there, from its first character to its last; an
/// empty one occurs everywhere, and none occurs in a shorter text.
pub proof fn lemma_occurrence(s: Seq<char>, needle: Seq<char>)
    ensures
        contains_text(s, needle) ==> exists|i: int|
            0 <= i <= s.len() - needle.len() && #[trigger] s.subrange(i, i + needle.len()) == needle,
        s.len() < needle.len() ==> !contains_text(s, needle),
        contains_text(s, Seq::empty()),
        contains_text(s, s),
{
    let e = Seq::<char>::empty();
    assert(s.subrange(0, 0) =~= e);
    assert(occurs_at(s, e, 0));
    assert(s.subrange(0, s.len() as int) =~= s);
    assert(occurs_at(s, s, 0));
    if contains_text(s, needle) {
        let i = choose|i: int| occurs_at(s, needle, i);
        assert(s.subrange(i, i + needle.len()) == needle);
    }
}

/// Tells whether `needle` stands in `chars` at `at`.
fn stands_at(chars: &Vec<char>, needle: &Vec<char>, at: usize) -> (r: bool)
    requires
        at + needle@.len() <= chars@.len(),
    ensures
        r == occurs_at(chars@, needle@, at as int),
{
    let n: usize = chars.len();
    let mut j: usize = 0;
    while j < needle.len()
        invariant
            n == chars@.len(),
            j <= needle@.len(),
            at + needle@.len() <= chars@.len(),
            forall|k: int| 0 <= k < j ==> chars@[at + k] == needle@[k],
        decreases needle@.len() - j,
    {
        if chars[at + j] != needle[j] {
            assert(chars@.subrange(at as int, at + needle@.len())[j as int] != needle@[j as int]);
            return false;
        }
        j += 1;
    }
    assert(chars@.subrange(at as int, at + needle@.len()) =~= needle@);
    true
}

/// Tells whether `needle` stands somewhere in `s`.
pub fn contains(s: &str, needle: &str) -> (r: bool)
    ensures
        r == contains_text(s@, needle@),
{
    let chars = chars_of(s);
    let pat = chars_of(needle);
    if pat.len() > chars.len() {
        return false;
    }
    let mut i: usize = 0;
    let last: usize = chars.len() - pat.len();
    while i <= last
        invariant
            chars@ == s@,
            pat@ == needle@,
            last + pat@.len() == chars@.len(),
            i <= last + 1,
            forall|k: int| 0 <= k < i ==> !occurs_at(s@, needle@, k),
        decreases last + 1 - i,
    {
        if stands_at(&chars, &pat, i) {
            return true;
        }
        if i == last {
            assert forall|k: int| !occurs_at(s@, needle@, k) by {}
            return false;
        }
        i += 1;
    }
    false
}

/// Tells whether `s` begins with `prefix`.
pub fn starts_with(s: &str, prefix: &str) -> (r: bool)
    ensures
        r == has_prefix(s@, prefix@),
{
    let chars = chars_of(s);
    let pat = chars_of(prefix);
    if pat.len() > chars.len() {
        return false;
    }
    assert(chars@.subrange(0, pat@.len() as int) =~= chars@.take(pat@.len() as int));
    stands_at(&chars, &pat, 0)
}

/// Tells whether `s` ends with `suffix`.
pub fn ends_with(s: &str, suffix: &str) -> (r: bool)
    ensures
        r == has_suffix(s@, suffix@),
{
    let chars = chars_of(s);
    let pat = chars_of(suffix);
    if pat.len() > chars.len() {
        return false;
    }
    let at: usize = chars.len() - pat.len();
    assert(chars@.subrange(at as int, chars@.len() as int) =~= chars@.skip(at as int));
    stands_at(&chars, &pat, at)
}

/// What follows `prefix` in `s`, if `s` begins with it.
pub fn strip_prefix(s: &str, prefix: &str) -> (r: Option<String>)
    ensures
        r is Some <==> has_prefix(s@, prefix@),
        r matches Some(rest) ==> rest@ == s@.skip(prefix@.len() as int),
{
    if !starts_with(s, prefix) {
        return None;
    }
    let chars = chars_of(s);
    let pat = chars_of(prefix);
    assert(chars@.subrange(pat@.len() as int, chars@.len() as int) =~= s@.skip(
        prefix@.len() as int,
    ));
    Some(string_of_range(&chars, pat.len(), chars.len()))
}

/// What precedes `suffix` in `s`, if `s` ends with it.
pub fn strip_suffix(s: &str, suffix: &str) -> (r: Option<String>)
    ensures
        r is Some <==> has_suffix(s@, suffix@),
        r matches Some(rest) ==> rest@ == s@.take(s@.len() - suffix@.len()),
{
    if !ends_with(s, suffix) {
        return None;
    }
    let chars = chars_of(s);
    let pat = chars_of(suffix);
    let end: usize = chars.len() - pat.len();
    assert(chars@.subrange(0, end as int) =~= s@.take(s@.len() - suffix@.len()));
    Some(string_of_range(&chars, 0, end))
}

// ---------------------------------------------------------------------------
// Splitting and joining
// ---------------------------------------------------------------------------

/// The position of the first `c` in `s`, or the length of `s` if there is none.
pub open spec fn find_char(s: Seq<char>, c: char) -> int
    decreases s.len(),
{
    if s.len() == 0 || s[0] == c {
        0
    } else {
        1 + find_char(s.skip(1), c)
    }
}

/// `find_char` points at the first occurrence, or past the end.
pub proof fn lemma_find_char(s: Seq<char>, c: char)
    ensures
        0 <= find_char(s, c) <= s.len(),
        find_char(s, c) < s.len() ==> s[find_char(s, c)] == c,
        forall|i: int| 0 <= i < find_char(s, c) ==> s[i] != c,
    decreases s.len(),
{
    if s.len() > 0 && s[0] != c {
        lemma_find_char(s.skip(1), c);
        assert forall|i: int| 0 <= i < find_char(s, c) implies s[i] != c by {
            if i > 0 {
                assert(s[i] == s.skip(1)[i - 1]);
            }
        }
    }
}

/// A position with `c`, and none before it, is what `find_char` gives.
pub proof fn lemma_find_char_is(s: Seq<char>, c: char, at: int)
    requires
        0 <= at <= s.len(),
        at < s.len() ==> s[at] == c,
        forall|i: int| 0 <= i < at ==> s[i] != c,
    ensures
        find_char(s, c) == at,
{
    lemma_find_char(s, c);
}

/// `s` cut at the first `c`, which is dropped; nothing if there is no `c`.
pub open spec fn split_first(s: Seq<char>, c: char) -> Option<(Seq<char>, Seq<char>)> {
    let n = find_char(s, c);
    if n < s.len() {
        Some((s.take(n), s.skip(n + 1)))
    } else {
        None
    }
}

/// A text is cut at the first separator: what is in front of it holds none, and the
/// two halves with the separator between them are the text. One that holds none is
/// not cut.
pub proof fn lemma_split_first(a: Seq<char>, b: Seq<char>, c: char)
    ensures
        !a.contains(c) ==> split_first(a + seq![c] + b, c) == Some((a, b)),
        !a.contains(c) ==> split_first(a, c) is None,
{
    if !a.contains(c) {
        let s = a + seq![c] + b;
        assert forall|i: int| 0 <= i < a.len() implies s[i] != c by {
            assert(a.contains(a[i]));
        }
        lemma_find_char_is(s, c, a.len() as int);
        assert(s.take(a.len() as int) =~= a);
        assert(s.skip(a.len() as int + 1) =~= b);
        lemma_find_char(a, c);
        if split_first(a, c) is Some {
            assert(a.contains(a[find_char(a, c)]));
        }
    }
}

/// The position of the first `c` at or after `from`, or the length.
pub fn find_from(chars: &Vec<char>, c: char, from: usize) -> (r: usize)
    requires
        from <= chars@.len(),
    ensures
        from <= r <= chars@.len(),
        r == from + find_char(chars@.skip(from as int), c),
{
    let mut i: usize = from;
    while i < chars.len() && chars[i] != c
        invariant
            from <= i <= chars@.len(),
            forall|k: int| from <= k < i ==> chars@[k] != c,
        decreases chars@.len() - i,
    {
        i += 1;
    }
    proof {
        lemma_find_char_is(chars@.skip(from as int), c, i - from);
    }
    i
}

/// Cuts `s` at the first `c`.
pub fn split_once(s: &str, c: char) -> (r: Option<(String, String)>)
    ensures
        r is Some <==> split_first(s@, c) is Some,
        r matches Some((a, b)) ==> split_first(s@, c) == Some((a@, b@)),
{
    let chars = chars_of(s);
    assert(s@.skip(0) =~= s@);
    let n: usize = find_from(&chars, c, 0);
    if n < chars.len() {
        proof {
            assert(chars@.subrange(0, n as int) =~= s@.take(n as int));
            assert(chars@.subrange(n + 1, chars@.len() as int) =~= s@.skip(n + 1));
        }
        Some((string_of_range(&chars, 0, n), string_of_range(&chars, n + 1, chars.len())))
    } else {
        None
    }
}

/// The texts of a list.
pub open spec fn views(v: Seq<String>) -> Seq<Seq<char>> {
    Seq::new(v.len(), |i: int| v[i]@)
}

/// The pieces of `s` between occurrences of `c`; at least one piece.
pub open spec fn split_all(s: Seq<char>, c: char) -> Seq<Seq<char>>
    decreases s.len(),
{
    let n = find_char(s, c);
    if 0 <= n < s.len() {
        seq![s.take(n)] + split_all(s.skip(n + 1), c)
    } else {
        seq![s]
    }
}

proof fn lemma_split_head(a: Seq<char>, b: Seq<char>, c: char)
    requires
        !a.contains(c),
    ensures
        split_all(a + seq![c] + b, c) == seq![a] + split_all(b, c),
        split_all(a, c) == seq![a],
{
    let s = a + seq![c] + b;
    assert forall|i: int| 0 <= i < a.len() implies s[i] != c && a[i] != c by {
        assert(a.contains(a[i]));
    }
    lemma_find_char_is(s, c, a.len() as int);
    lemma_find_char_is(a, c, a.len() as int);
    assert(s.take(a.len() as int) =~= a);
    assert(s.skip(a.len() as int + 1) =~= b);
}

proof fn lemma_split_last(a: Seq<char>, p: Seq<char>, c: char)
    requires
        !p.contains(c),
    ensures
        split_all(a + seq![c] + p, c) == split_all(a, c).push(p),
    decreases a.len(),
{
    let n = find_char(a, c);
    lemma_find_char(a, c);
    lemma_split_head(p, Seq::empty(), c);
    if 0 <= n < a.len() {
        let head = a.take(n);
        let rest = a.skip(n + 1);
        assert(!head.contains(c)) by {
            if head.contains(c) {
                let i = choose|i: int| 0 <= i < head.len() && head[i] == c;
                assert(a[i] == c);
            }
        }
        lemma_split_last(rest, p, c);
        assert(a + seq![c] + p =~= head + seq![c] + (rest + seq![c] + p));
        lemma_split_head(head, rest + seq![c] + p, c);
        assert(a =~= head + seq![c] + rest);
        assert(seq![head] + split_all(rest, c).push(p) =~= (seq![head] + split_all(rest, c)).push(
            p,
        ));
    } else {
        assert(!a.contains(c)) by {
            if a.contains(c) {
                let i = choose|i: int| 0 <= i < a.len() && a[i] == c;
                assert(a[i] == c);
            }
        }
        lemma_split_head(a, p, c);
        assert(seq![a] + seq![p] =~= seq![a].push(p));
    }
}

/// Splitting undoes joining: parts that hold no separator are found again, each as
/// it was and in their order.
pub proof fn lemma_split_undoes_join(parts: Seq<Seq<char>>, c: char)
    requires
        parts.len() > 0,
        forall|i: int| 0 <= i < parts.len() ==> !(#[trigger] parts[i]).contains(c),
    ensures
        split_all(joined(parts, seq![c]), c) == parts,
    decreases parts.len(),
{
    if parts.len() == 1 {
        lemma_split_head(parts[0], Seq::empty(), c);
        assert(seq![parts[0]] =~= parts);
    } else {
        let front = parts.drop_last();
        lemma_split_undoes_join(front, c);
        lemma_split_last(joined(front, seq![c]), parts.last(), c);
        assert(front.push(parts.last()) =~= parts);
    }
}

/// Cuts `s` at every `c`.
pub fn split(s: &str, c: char) -> (r: Vec<String>)
    ensures
        views(r@) == split_all(s@, c),
{
    let chars = chars_of(s);
    let mut out: Vec<String> = Vec::new();
    let mut at: usize = 0;
    proof {
        assert(s@.skip(0) =~= s@);
        assert(views(out@) + split_all(s@, c) =~= split_all(s@, c));
    }
    loop
        invariant
            at <= chars@.len(),
            chars@ == s@,
            views(out@) + split_all(s@.skip(at as int), c) == split_all(s@, c),
        decreases chars@.len() - at,
    {
        let n: usize = find_from(&chars, c, at);
        let piece = string_of_range(&chars, at, n);
        let ghost rest = s@.skip(at as int);
        let ghost before = out@;
        proof {
            assert(piece@ =~= rest.take(n - at));
        }
        out.push(piece);
        proof {
            assert(views(out@) =~= views(before).push(piece@));
        }
        if n < chars.len() {
            proof {
                assert(rest.skip(n - at + 1) =~= s@.skip(n + 1));
                assert(views(out@) + split_all(s@.skip(n + 1), c) =~= views(before) + (
                seq![rest.take(n - at)] + split_all(s@.skip(n + 1), c)));
            }
            at = n + 1;
        } else {
            proof {
                assert(rest.take(n - at) =~= rest);
                assert(views(out@) =~= views(before) + seq![rest]);
            }
            return out;
        }
    }
}

/// The lines of `s`, each without its line ending. A carriage return is part
/// of the ending only directly before a newline.
pub open spec fn lines_of(s: Seq<char>) -> Seq<Seq<char>>
    decreases s.len(),
{
    let n = find_char(s, '\n');
    if s.len() == 0 {
        Seq::empty()
    } else if 0 <= n < s.len() {
        seq![without_return(s.take(n))] + lines_of(s.skip(n + 1))
    } else {
        seq![s]
    }
}

/// `s` without one trailing carriage return.
pub open spec fn without_return(s: Seq<char>) -> Seq<char> {
    if s.len() > 0 && s.last() == '\r' {
        s.drop_last()
    } else {
        s
    }
}

/// A line ends at its newline, with a carriage return directly before that or
/// without; the last line may do without a newline, and an empty text has no line.
pub proof fn lemma_lines(a: Seq<char>, rest: Seq<char>)
    requires
        !a.contains('\n'),
    ensures
        a.len() == 0 || a.last() != '\r' ==> lines_of(a + seq!['\n'] + rest) == seq![a]
            + lines_of(rest),
        lines_of(a + seq!['\r', '\n'] + rest) == seq![a] + lines_of(rest),
        a.len() > 0 ==> lines_of(a) == seq![a],
        lines_of(Seq::empty()) == Seq::<Seq<char>>::empty(),
{
    let s = a + seq!['\n'] + rest;
    let t = a + seq!['\r', '\n'] + rest;
    assert forall|i: int| 0 <= i < a.len() implies s[i] != '\n' && a[i] != '\n' && t[i] != '\n' by {
        assert(a.contains(a[i]));
    }
    assert(t[a.len() as int] == '\r' && t[a.len() as int + 1] == '\n');
    lemma_find_char_is(s, '\n', a.len() as int);
    lemma_find_char_is(t, '\n', a.len() as int + 1);
    lemma_find_char_is(a, '\n', a.len() as int);
    assert(s.take(a.len() as int) =~= a);
    assert(s.skip(a.len() as int + 1) =~= rest);
    assert(t.take(a.len() as int + 1) =~= a.push('\r'));
    assert(a.push('\r').drop_last() =~= a);
    assert(t.skip(a.len() as int + 2) =~= rest);
}

/// Cuts `s` into lines.
pub fn lines(s: &str) -> (r: Vec<String>)
    ensures
        views(r@) == lines_of(s@),
{
    let chars = chars_of(s);
    let mut out: Vec<String> = Vec::new();
    let mut at: usize = 0;
    proof {
        assert(s@.skip(0) =~= s@);
        assert(views(out@) + lines_of(s@) =~= lines_of(s@));
    }
    while at < chars.len()
        invariant
            at <= chars@.len(),
            chars@ == s@,
            views(out@) + lines_of(s@.skip(at as int)) == lines_of(s@),
        decreases chars@.len() - at,
    {
        let n: usize = find_from(&chars, '\n', at);
        let ghost rest = s@.skip(at as int);
        let ghost before = out@;
        if n < chars.len() {
            let end: usize = if n > at && chars[n - 1] == '\r' {
                n - 1
            } else {
                n
            };
            let line = string_of_range(&chars, at, end);
            proof {
                assert(line@ =~= without_return(rest.take(n - at)));
                assert(rest.skip(n - at + 1) =~= s@.skip(n + 1));
            }
            out.push(line);
            proof {
                assert(views(out@) =~= views(before).push(line@));
                assert(views(out@) + lines_of(s@.skip(n + 1)) =~= views(before) + (seq![line@]
                    + lines_of(s@.skip(n + 1))));
            }
            at = n + 1;
        } else {
            let line = string_of_range(&chars, at, n);
            proof {
                assert(line@ =~= rest);
            }
            out.push(line);
            proof {
                assert(views(out@) =~= views(before) + seq![rest]);
                assert(s@.skip(n as int) =~= Seq::<char>::empty());
                assert(lines_of(s@.skip(n as int)) =~= Seq::<Seq<char>>::empty());
                assert(views(out@) + lines_of(s@.skip(n as int)) =~= views(out@));
            }
            at = n;
        }
    }
    proof {
        assert(s@.skip(at as int) =~= Seq::<char>::empty());
        assert(views(out@) + lines_of(s@.skip(at as int)) =~= views(out@));
    }
    out
}


/// The length of the word `s` begins with.
pub open spec fn word_len(s: Seq<char>) -> int
    decreases s.len(),
{
    if s.len() == 0 || is_white(s[0]) {
        0
    } else {
        1 + word_len(s.skip(1))
    }
}

/// A word ends at white space or at the end of the text.
pub proof fn lemma_word_len(s: Seq<char>)
    ensures
        0 <= word_len(s) <= s.len(),
        word_len(s) < s.len() ==> is_white(s[word_len(s)]),
        forall|i: int| 0 <= i < word_len(s) ==> !is_white(s[i]),
    decreases s.len(),
{
    if s.len() > 0 && !is_white(s[0]) {
        lemma_word_len(s.skip(1));
        assert forall|i: int| 0 <= i < word_len(s) implies !is_white(s[i]) by {
            if i > 0 {
                assert(s[i] == s.skip(1)[i - 1]);
            }
        }
    }
}

/// Removing leading white space never lengthens a text.
pub proof fn lemma_trim_start_len(s: Seq<char>)
    ensures
        trim_start(s).len() <= s.len(),
        trim_start(s).len() > 0 ==> !is_white(trim_start(s)[0]),
    decreases s.len(),
{
    if s.len() > 0 && is_white(s[0]) {
        lemma_trim_start_len(s.skip(1));
    }
}

/// The maximal runs of characters that are not white space, in order.
pub open spec fn words_of(s: Seq<char>) -> Seq<Seq<char>>
    decreases s.len(),
{
    let t = trim_start(s);
    let n = word_len(t);
    if t.len() == 0 {
        Seq::empty()
    } else {
        proof {
            lemma_trim_start_len(s);
            lemma_word_len(t);
        }
        seq![t.take(n)] + words_of(t.skip(n))
    }
}

/// Cuts `s` at white space.
pub fn split_whitespace(s: &str) -> (r: Vec<String>)
    ensures
        views(r@) == words_of(s@),
{
    let chars = chars_of(s);
    let mut out: Vec<String> = Vec::new();
    let mut at: usize = 0;
    proof {
        assert(s@.skip(0) =~= s@);
        assert(views(out@) + words_of(s@) =~= words_of(s@));
    }
    loop
        invariant
            at <= chars@.len(),
            chars@ == s@,
            views(out@) + words_of(s@.skip(at as int)) == words_of(s@),
        decreases chars@.len() - at,
    {
        let ghost rest = s@.skip(at as int);
        let ghost before = out@;
        let mut i: usize = at;
        while i < chars.len() && char_is_white(chars[i])
            invariant
                at <= i <= chars@.len(),
                chars@ == s@,
                trim_start(rest) == trim_start(s@.skip(i as int)),
            decreases chars@.len() - i,
        {
            proof {
                assert(s@.skip(i as int).skip(1) =~= s@.skip(i + 1));
            }
            i += 1;
        }
        let ghost t = s@.skip(i as int);
        proof {
            assert(trim_start(rest) == t);
        }
        if i == chars.len() {
            proof {
                assert(t =~= Seq::<char>::empty());
                assert(views(out@) + words_of(rest) =~= views(out@));
            }
            return out;
        }
        let mut j: usize = i;
        proof {
            assert(t.skip(0) =~= t);
        }
        while j < chars.len() && !char_is_white(chars[j])
            invariant
                i <= j <= chars@.len(),
                chars@ == s@,
                word_len(t) == (j - i) + word_len(s@.skip(j as int)),
            decreases chars@.len() - j,
        {
            proof {
                assert(s@.skip(j as int).skip(1) =~= s@.skip(j + 1));
            }
            j += 1;
        }
        let word = string_of_range(&chars, i, j);
        proof {
            assert(word_len(t) == j - i);
            assert(word@ =~= t.take(j - i));
            assert(t.skip(j - i) =~= s@.skip(j as int));
            lemma_word_len(t);
        }
        out.push(word);
        proof {
            assert(views(out@) =~= views(before).push(word@));
            assert(views(out@) + words_of(s@.skip(j as int)) =~= views(before) + (seq![word@]
                + words_of(s@.skip(j as int))));
        }
        at = j;
    }
}

proof fn lemma_word_len_is(w: Seq<char>, rest: Seq<char>)
    requires
        forall|i: int| 0 <= i < w.len() ==> !is_white(#[trigger] w[i]),
        rest.len() == 0 || is_white(rest[0]),
    ensures
        word_len(w + rest) == w.len(),
    decreases w.len(),
{
    let s = w + rest;
    if w.len() > 0 {
        assert(s.skip(1) =~= w.skip(1) + rest);
        assert(s[0] == w[0]);
        lemma_word_len_is(w.skip(1), rest);
    } else {
        assert(s =~= rest);
    }
}

/// Words are what stands between white space: a word in front is the first, white
/// space in front of a text does not matter, and a word alone is the only one.
pub proof fn lemma_words(w: Seq<char>, gap: char, rest: Seq<char>)
    requires
        w.len() > 0,
        forall|i: int| 0 <= i < w.len() ==> !is_white(#[trigger] w[i]),
        is_white(gap),
    ensures
        words_of(w + seq![gap] + rest) == seq![w] + words_of(rest),
        words_of(seq![gap] + rest) == words_of(rest),
        words_of(w) == seq![w],
{
    let blank = seq![gap] + rest;
    assert(blank.skip(1) =~= rest);
    assert(trim_start(blank) == trim_start(rest));
    let s = w + seq![gap] + rest;
    assert(s =~= w + blank);
    lemma_word_len_is(w, blank);
    assert(s[0] == w[0]);
    assert(s.take(w.len() as int) =~= w);
    assert(s.skip(w.len() as int) =~= blank);
    assert(words_of(blank) == words_of(rest));
    assert(trim_start(s) == s);
    assert(words_of(s) == seq![w] + words_of(blank));
    let none = Seq::<char>::empty();
    lemma_word_len_is(w, none);
    assert(w + none =~= w);
    assert(w.take(w.len() as int) =~= w);
    assert(w.skip(w.len() as int) =~= none);
    assert(words_of(none) == Seq::<Seq<char>>::empty());
    assert(seq![w] + Seq::<Seq<char>>::empty() =~= seq![w]);
}

/// `parts` with `sep` between neighbours.
pub open spec fn joined(parts: Seq<Seq<char>>, sep: Seq<char>) -> Seq<char>
    decreases parts.len(),
{
    if parts.len() == 0 {
        Seq::empty()
    } else if parts.len() == 1 {
        parts[0]
    } else {
        joined(parts.drop_last(), sep) + sep + parts.last()
    }
}

/// Writes `parts` one after the other with `sep` between neighbours.
pub fn join(parts: &[String], sep: &str) -> (r: String)
    ensures
        r@ == joined(views(parts@), sep@),
{
    let mut out = String::new();
    let mut i: usize = 0;
    let ghost all = views(parts@);
    proof {
        assert(all.take(0) =~= Seq::<Seq<char>>::empty());
    }
    while i < parts.len()
        invariant
            i <= parts@.len(),
            all == views(parts@),
            out@ == joined(all.take(i as int), sep@),
        decreases parts@.len() - i,
    {
        if i > 0 {
            out.append(sep);
        }
        out.append(parts[i].as_str());
        proof {
            let now = all.take(i + 1);
            assert(now.drop_last() =~= all.take(i as int));
            assert(now.last() == parts@[i as int]@);
            if i == 0 {
                assert(now[0] == parts@[0]@);
                assert(out@ =~= parts@[0]@);
            }
        }
        i += 1;
    }
    proof {
        assert(all.take(i as int) =~= all);
    }
    out
}

/// The words of `s` with one space between neighbours.
pub open spec fn single_line(s: Seq<char>) -> Seq<char> {
    joined(words_of(s), " "@)
}

/// Collapses a multi-line rendering into one line for a JSON string field.
pub fn one_line(s: &str) -> (r: String)
    ensures
        r@ == single_line(s@),
{
    let words = split_whitespace(s);
    join(&words, " ")
}

/// No word holds white space, and no word is empty.
pub proof fn lemma_words_are_black(s: Seq<char>)
    ensures
        forall|k: int, i: int|
            0 <= k < words_of(s).len() && 0 <= i < words_of(s)[k].len() ==> !is_white(
                #[trigger] words_of(s)[k][i],
            ),
        forall|k: int| 0 <= k < words_of(s).len() ==> (#[trigger] words_of(s)[k]).len() > 0,
    decreases s.len(),
{
    let t = trim_start(s);
    let n = word_len(t);
    lemma_trim_start_len(s);
    lemma_word_len(t);
    if t.len() > 0 {
        lemma_words_are_black(t.skip(n));
        let rest = words_of(t.skip(n));
        assert forall|k: int, i: int|
            0 <= k < words_of(s).len() && 0 <= i < words_of(s)[k].len() implies !is_white(
            #[trigger] words_of(s)[k][i],
        ) by {
            if k > 0 {
                assert(words_of(s)[k] == rest[k - 1]);
            }
        }
        assert forall|k: int| 0 <= k < words_of(s).len() implies (
        #[trigger] words_of(s)[k]).len() > 0 by {
            if k > 0 {
                assert(words_of(s)[k] == rest[k - 1]);
            }
        }
    }
}

/// Joining with a space brings in no white space but that space.
proof fn lemma_joined_white(parts: Seq<Seq<char>>)
    requires
        forall|k: int, i: int|
            0 <= k < parts.len() && 0 <= i < parts[k].len() ==> !is_white(#[trigger] parts[k][i]),
    ensures
        forall|i: int|
            0 <= i < joined(parts, " "@).len() ==> is_white(#[trigger] joined(parts, " "@)[i])
                ==> joined(parts, " "@)[i] == ' ',
    decreases parts.len(),
{
    reveal_strlit(" ");
    if parts.len() == 1 {
        assert forall|i: int| 0 <= i < parts[0].len() implies !is_white(parts[0][i]) by {}
    } else if parts.len() > 1 {
        let front = parts.drop_last();
        assert forall|k: int, i: int|
            0 <= k < front.len() && 0 <= i < front[k].len() implies !is_white(
            #[trigger] front[k][i],
        ) by {
            assert(front[k][i] == parts[k][i]);
        }
        lemma_joined_white(front);
        let head = joined(front, " "@);
        let whole = joined(parts, " "@);
        assert forall|i: int| 0 <= i < whole.len() && is_white(
            #[trigger] whole[i],
        ) implies whole[i] == ' ' by {
            if i < head.len() {
                assert(whole[i] == head[i]);
            } else if i > head.len() {
                let k = parts.len() - 1;
                assert(whole[i] == parts[k][i - head.len() - 1]);
            }
        }
    }
}

/// One line stays one line: the only white space left is the single space, so
/// in particular no newline survives.
pub proof fn lemma_single_line(s: Seq<char>)
    ensures
        forall|i: int|
            0 <= i < single_line(s).len() ==> is_white(#[trigger] single_line(s)[i])
                ==> single_line(s)[i] == ' ',
        !single_line(s).contains('\n'),
{
    lemma_words_are_black(s);
    lemma_joined_white(words_of(s));
    let r = single_line(s);
    if r.contains('\n') {
        let i = choose|i: int| 0 <= i < r.len() && r[i] == '\n';
        assert(is_white(r[i]));
    }
}


// ---------------------------------------------------------------------------
// What the standard library makes of a text
// ---------------------------------------------------------------------------

/// A text as `{:?}` shows it: in quotes, with escapes.
pub uninterp spec fn debug_text(s: Seq<char>) -> Seq<char>;

/// A character as `{:?}` shows it: in quotes, with escapes.
pub uninterp spec fn debug_char(c: char) -> Seq<char>;

/// The text that bytes stand for when every malformed part is replaced.
pub uninterp spec fn lossy_text(bytes: Seq<u8>) -> Seq<char>;

/// `Debug` for `str`: the result is a function of the text alone.
#[verifier::external_body]
pub(crate) fn quoted(s: &str) -> (r: String)
    ensures
        r@ == debug_text(s@),
{
    format!("{s:?}")
}

/// `Debug` for `char`: the result is a function of the character alone.
#[verifier::external_body]
pub(crate) fn quoted_char(c: char) -> (r: String)
    ensures
        r@ == debug_char(c),
{
    format!("{c:?}")
}

/// `String::from_utf8_lossy`: well-formed UTF-8 is decoded as it is; what
/// stands for a malformed part is a function of the bytes alone.
#[verifier::external_body]
pub(crate) fn from_utf8_lossy(bytes: &[u8]) -> (r: String)
    ensures
        r@ == lossy_text(bytes@),
        vstd::utf8::valid_utf8(bytes@) ==> r@ == vstd::utf8::decode_utf8(bytes@),
{
    String::from_utf8_lossy(bytes).into_owned()
}

} // verus!
