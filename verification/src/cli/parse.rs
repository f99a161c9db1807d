//! What a call that the argument parser rejected is answered.

use vstd::prelude::*;

use crate::error::labelled;
use crate::protocol::{error_with_hint, is_error, ErrorCode, Response};
use crate::text::{
    chars_of, has_prefix, lines, lines_of, one_line, single_line, starts_with, string_view,
    strip_prefix, trim, trimmed, views,
};

verus! {

// ---------------------------------------------------------------------------
// Styled text
// ---------------------------------------------------------------------------

/// How many characters a style sequence takes after `ESC [`: up to and with its
/// final character, or everything.
pub open spec fn style_len(s: Seq<char>) -> int
    decreases s.len(),
{
    if s.len() == 0 {
        0
    } else if '@' <= s[0] <= '~' {
        1
    } else {
        1 + style_len(s.skip(1))
    }
}

/// `s` without its style sequences.
pub open spec fn unstyled(s: Seq<char>) -> Seq<char>
    decreases s.len(),
{
    if s.len() == 0 {
        Seq::empty()
    } else if s[0] != '\u{1b}' {
        seq![s[0]] + unstyled(s.skip(1))
    } else if s.len() < 2 {
        Seq::empty()
    } else if s[1] == '[' {
        let n = style_len(s.skip(2));
        if 0 <= n <= s.len() - 2 {
            unstyled(s.skip(2 + n))
        } else {
            Seq::empty()
        }
    } else {
        unstyled(s.skip(2))
    }
}

proof fn lemma_style_len(s: Seq<char>)
    ensures
        0 <= style_len(s) <= s.len(),
    decreases s.len(),
{
    if s.len() > 0 && !('@' <= s[0] <= '~') {
        lemma_style_len(s.skip(1));
    }
}

fn skip_style(chars: &Vec<char>, from: usize) -> (r: usize)
    requires
        from <= chars@.len(),
    ensures
        r == from + style_len(chars@.skip(from as int)),
        from <= r <= chars@.len(),
{
    let mut i: usize = from;
    while i < chars.len()
        invariant
            from <= i <= chars@.len(),
            style_len(chars@.skip(from as int)) == i - from + style_len(chars@.skip(i as int)),
        decreases chars@.len() - i,
    {
        proof {
            assert(chars@.skip(i as int)[0] == chars@[i as int]);
            assert(chars@.skip(i as int).skip(1) =~= chars@.skip(i + 1));
        }
        let c = chars[i];
        i += 1;
        if '@' <= c && c <= '~' {
            return i;
        }
    }
    i
}

/// Drop style sequences, so that a styled rendering does not end up as escape
/// codes inside a JSON string when stderr happens to be a terminal.
pub fn strip_ansi(s: &str) -> (r: String)
    ensures
        r@ == unstyled(s@),
{
    let chars = chars_of(s);
    let mut out = String::new();
    let mut i: usize = 0;
    proof {
        assert(chars@.skip(0) =~= s@);
        assert(out@ + unstyled(s@) =~= unstyled(s@));
    }
    while i < chars.len()
        invariant
            i <= chars@.len(),
            chars@ == s@,
            out@ + unstyled(chars@.skip(i as int)) == unstyled(s@),
        decreases chars@.len() - i,
    {
        let ghost rest = chars@.skip(i as int);
        proof {
            assert(rest[0] == chars@[i as int]);
            assert(rest.skip(1) =~= chars@.skip(i + 1));
        }
        if chars[i] != '\u{1b}' {
            let ghost before = out@;
            out.push(chars[i]);
            assert(before + (seq![rest[0]] + unstyled(rest.skip(1))) =~= out@ + unstyled(
                rest.skip(1),
            ));
            i += 1;
        } else if i + 1 >= chars.len() {
            i += 1;
            assert(chars@.skip(i as int) =~= Seq::<char>::empty());
        } else {
            proof {
                assert(rest[1] == chars@[i + 1]);
                assert(rest.skip(2) =~= chars@.skip(i + 2));
            }
            if chars[i + 1] == '[' {
                let next: usize = skip_style(&chars, i + 2);
                assert(rest.skip(2 + style_len(rest.skip(2))) =~= chars@.skip(next as int));
                i = next;
            } else {
                i += 2;
            }
        }
    }
    proof {
        assert(chars@.skip(i as int) =~= Seq::<char>::empty());
        assert(out@ + Seq::<char>::empty() =~= out@);
    }
    out
}

/// No escape character survives, and text without one is left as it is.
pub proof fn lemma_unstyled(s: Seq<char>)
    ensures
        !unstyled(s).contains('\u{1b}'),
        !s.contains('\u{1b}') ==> unstyled(s) == s,
    decreases s.len(),
{
    if s.len() > 0 {
        if s[0] != '\u{1b}' {
            let rest = s.skip(1);
            lemma_unstyled(rest);
            let u = unstyled(s);
            assert forall|i: int| 0 <= i < u.len() implies u[i] != '\u{1b}' by {
                if i > 0 {
                    assert(u[i] == unstyled(rest)[i - 1]);
                    assert(unstyled(rest).contains(unstyled(rest)[i - 1]));
                }
            }
            if !s.contains('\u{1b}') {
                assert forall|i: int| 0 <= i < rest.len() implies rest[i] != '\u{1b}' by {
                    assert(rest[i] == s[i + 1]);
                    assert(s.contains(s[i + 1]));
                }
                assert(seq![s[0]] + rest =~= s);
            }
        } else {
            assert(s.contains(s[0]));
            if s.len() >= 2 {
                if s[1] == '[' {
                    lemma_style_len(s.skip(2));
                    lemma_unstyled(s.skip(2 + style_len(s.skip(2))));
                } else {
                    lemma_unstyled(s.skip(2));
                }
            }
        }
    } else {
        assert(unstyled(s) =~= s);
    }
}

proof fn lemma_style_ends(code: Seq<char>, end: char, rest: Seq<char>)
    requires
        forall|i: int| 0 <= i < code.len() ==> !('@' <= #[trigger] code[i] <= '~'),
        '@' <= end <= '~',
    ensures
        style_len(code + seq![end] + rest) == code.len() + 1,
    decreases code.len(),
{
    let s = code + seq![end] + rest;
    if code.len() > 0 {
        let shorter = code.skip(1);
        assert(s.skip(1) =~= shorter + seq![end] + rest);
        assert(s[0] == code[0]);
        lemma_style_ends(shorter, end, rest);
    } else {
        assert(s[0] == end);
    }
}

/// A style sequence leaves no trace: from its escape to its final character it is
/// dropped, and what follows is treated as if it had not been there; what stands in
/// front of it stays.
pub proof fn lemma_style_is_dropped(code: Seq<char>, end: char, rest: Seq<char>, c: char)
    requires
        forall|i: int| 0 <= i < code.len() ==> !('@' <= #[trigger] code[i] <= '~'),
        '@' <= end <= '~',
    ensures
        unstyled(seq!['\u{1b}', '['] + code + seq![end] + rest) == unstyled(rest),
        c != '\u{1b}' ==> unstyled(seq![c] + rest) == seq![c] + unstyled(rest),
{
    let tail = code + seq![end] + rest;
    let s = seq!['\u{1b}', '['] + code + seq![end] + rest;
    assert(s.skip(2) =~= tail);
    assert(s[0] == '\u{1b}' && s[1] == '[');
    lemma_style_ends(code, end, rest);
    assert(s.skip(2 + code.len() as int + 1) =~= rest);
    assert((seq![c] + rest).skip(1) =~= rest);
}

// ---------------------------------------------------------------------------
// The parser's rendering
// ---------------------------------------------------------------------------

/// The diagnosis and the tip read so far.
pub struct Diagnosis {
    pub message: Seq<char>,
    pub tip: Option<Seq<char>>,
}

/// What one line adds: the first error line is the diagnosis, the first tip the
/// tip; before an error line, any line but the usage will do.
pub open spec fn diagnosed(d: Diagnosis, raw: Seq<char>) -> Diagnosis {
    let line = trimmed(raw);
    if line.len() == 0 {
        d
    } else if has_prefix(line, "error: "@) {
        if d.message.len() == 0 {
            Diagnosis { message: single_line(line.skip("error: "@.len() as int)), tip: d.tip }
        } else {
            d
        }
    } else if has_prefix(line, "tip: "@) {
        if d.tip is None {
            Diagnosis {
                message: d.message,
                tip: Some(single_line(line.skip("tip: "@.len() as int))),
            }
        } else {
            d
        }
    } else if d.message.len() == 0 && !has_prefix(line, "Usage:"@) {
        Diagnosis { message: single_line(line), tip: d.tip }
    } else {
        d
    }
}

/// What these lines say.
pub open spec fn diagnosis(lines: Seq<Seq<char>>) -> Diagnosis
    decreases lines.len(),
{
    if lines.len() == 0 {
        Diagnosis { message: Seq::empty(), tip: None }
    } else {
        diagnosed(diagnosis(lines.drop_last()), lines.last())
    }
}

/// The diagnosis of a rendering; the whole of it in one line where no line says
/// anything.
pub open spec fn diagnosis_text(rendered: Seq<char>) -> Seq<char> {
    let d = diagnosis(lines_of(rendered));
    if d.message.len() == 0 {
        single_line(rendered)
    } else {
        d.message
    }
}

/// Split the parser's rendering into a one-sentence message and, where it offers
/// one, the tip that names the fix. The remainder is help text.
pub fn clap_parts(rendered: &str) -> (r: (String, Option<String>))
    ensures
        r.0@ == diagnosis_text(rendered@),
        string_view(r.1) == diagnosis(lines_of(rendered@)).tip,
{
    let all = lines(rendered);
    let mut message = String::new();
    let mut tip: Option<String> = None;
    let mut i: usize = 0;
    let ghost seen = lines_of(rendered@);
    assert(seen.take(0) =~= Seq::<Seq<char>>::empty());
    while i < all.len()
        invariant
            i <= all@.len(),
            seen == lines_of(rendered@),
            views(all@) == seen,
            message@ == diagnosis(seen.take(i as int)).message,
            string_view(tip) == diagnosis(seen.take(i as int)).tip,
        decreases all@.len() - i,
    {
        proof {
            assert(seen.take(i + 1).drop_last() =~= seen.take(i as int));
            assert(seen.take(i + 1).last() == all@[i as int]@);
        }
        let line = trim(all[i].as_str());
        if !line.as_str().is_empty() {
            if let Some(rest) = strip_prefix(line.as_str(), "error: ") {
                if message.as_str().is_empty() {
                    message = one_line(rest.as_str());
                }
            } else if let Some(rest) = strip_prefix(line.as_str(), "tip: ") {
                if tip.is_none() {
                    tip = Some(one_line(rest.as_str()));
                }
            } else if message.as_str().is_empty() && !starts_with(line.as_str(), "Usage:") {
                message = one_line(line.as_str());
            }
        }
        i += 1;
    }
    assert(seen.take(i as int) =~= seen);
    if message.as_str().is_empty() {
        message = one_line(rendered);
    }
    (message, tip)
}

/// The first error line is the diagnosis and the first tip is the tip: what was found
/// stays, whatever line follows, and neither the usage nor an empty line is taken for
/// a diagnosis.
pub proof fn lemma_first_diagnosis_stays(d: Diagnosis, text: Seq<char>, raw: Seq<char>)
    requires
        text.len() > 0,
        !crate::text::is_white(text.last()),
    ensures
        d.message.len() > 0 ==> diagnosed(d, raw).message == d.message,
        d.tip is Some ==> diagnosed(d, raw).tip == d.tip,
        d.message.len() == 0 ==> diagnosed(d, "error: "@ + text).message == single_line(text),
        d.tip is None ==> diagnosed(d, "tip: "@ + text).tip == Some(single_line(text)),
        diagnosed(d, "error: "@ + text).tip == d.tip,
        diagnosed(d, "tip: "@ + text).message == d.message,
        diagnosed(d, "Usage:"@ + text) == d,
        trimmed(raw).len() == 0 ==> diagnosed(d, raw) == d,
{
    reveal_strlit("error: ");
    reveal_strlit("tip: ");
    reveal_strlit("Usage:");
    let e = "error: "@ + text;
    let t = "tip: "@ + text;
    let u = "Usage:"@ + text;
    assert(e[0] == 'e' && t[0] == 't' && u[0] == 'U');
    assert(e.last() == text.last() && t.last() == text.last() && u.last() == text.last());
    crate::text::lemma_trimmed_already(e);
    crate::text::lemma_trimmed_already(t);
    crate::text::lemma_trimmed_already(u);
    assert(e.take(7) =~= "error: "@ && t.take(5) =~= "tip: "@ && u.take(6) =~= "Usage:"@);
    assert(e.skip(7) =~= text && t.skip(5) =~= text);
    if has_prefix(t, "error: "@) {
        assert(t.take(7)[0] == "error: "@[0]);
    }
    if has_prefix(u, "error: "@) {
        assert(u.take(7)[0] == "error: "@[0]);
    }
    if has_prefix(u, "tip: "@) {
        assert(u.take(5)[0] == "tip: "@[0]);
    }
}

proof fn lemma_diagnosis_is_one_line(lines: Seq<Seq<char>>)
    ensures
        !diagnosis(lines).message.contains('\n'),
        diagnosis(lines).tip matches Some(t) ==> !t.contains('\n'),
    decreases lines.len(),
{
    if lines.len() > 0 {
        lemma_diagnosis_is_one_line(lines.drop_last());
        let line = trimmed(lines.last());
        crate::text::lemma_single_line(line);
        crate::text::lemma_single_line(line.skip("error: "@.len() as int));
        crate::text::lemma_single_line(line.skip("tip: "@.len() as int));
    }
}

/// The message and the tip are one line each, whatever was rendered.
pub proof fn lemma_clap_parts_are_one_line(rendered: Seq<char>)
    ensures
        !diagnosis_text(rendered).contains('\n'),
        diagnosis(lines_of(rendered)).tip matches Some(t) ==> !t.contains('\n'),
{
    lemma_diagnosis_is_one_line(lines_of(rendered));
    crate::text::lemma_single_line(rendered);
}

// ---------------------------------------------------------------------------
// The answer
// ---------------------------------------------------------------------------

/// Why the parser did not hand over a command.
#[derive(Debug, Clone, Copy, PartialEq, Eq, Structural)]
pub enum ParseKind {
    /// Help or the version was asked for.
    Display,
    /// Nothing was asked for, so help was printed.
    DisplayOnMissing,
    /// The call is wrong.
    Rejected,
}

/// The hint for a call that the parser rejected.
pub open spec fn parse_hint(tip: Option<Seq<char>>) -> Seq<char> {
    match tip {
        Some(t) => t + "; `rx --help` for the full usage"@,
        None => "run `rx --help`, or `rx skill` for the full guide"@,
    }
}

/// `r` answers a call that the parser did not hand over.
pub open spec fn is_parse_answer(
    r: (Option<Response>, u8),
    kind: ParseKind,
    rendered: Seq<char>,
) -> bool {
    &&& r.1 == if kind is Display {
        0u8
    } else {
        2u8
    }
    &&& kind !is Rejected ==> r.0 is None
    &&& kind is Rejected ==> (r.0 matches Some(resp) && is_error(
        resp,
        ErrorCode::BadRequest,
        diagnosis_text(unstyled(rendered)),
        Some(parse_hint(diagnosis(lines_of(unstyled(rendered))).tip)),
    ))
}

/// A call that is wrong is answered by an error of the caller's, with a hint, and it
/// exits as any such error does; asking for help is no failure.
pub proof fn lemma_parse_answer_exits_alike(
    r: (Option<Response>, u8),
    kind: ParseKind,
    rendered: Seq<char>,
)
    requires
        is_parse_answer(r, kind, rendered),
    ensures
        r.1 == 0 <==> kind is Display,
        r.0 is Some <==> kind is Rejected,
        r.0 matches Some(resp) ==> r.1 == crate::cli::exit::exit_of(resp) && (resp
            matches Response::Error { code, message, hint, .. } && code == Some(
            ErrorCode::BadRequest,
        ) && hint is Some && !message@.contains('\n')),
{
    lemma_clap_parts_are_one_line(unstyled(rendered));
}

/// Answer a call that the parser did not hand over: discovery prints for a reader
/// and emits no object, a call that is wrong gets the same typed object as every
/// other failure. The second part is the exit status.
pub fn parse_failure(kind: ParseKind, rendered: &str) -> (r: (Option<Response>, u8))
    ensures
        is_parse_answer(r, kind, rendered@),
{
    match kind {
        ParseKind::Display => (None, 0),
        ParseKind::DisplayOnMissing => (None, 2),
        ParseKind::Rejected => {
            let plain = strip_ansi(rendered);
            let (message, tip) = clap_parts(plain.as_str());
            let hint = match tip {
                Some(t) => labelled(t.as_str(), "; `rx --help` for the full usage"),
                None => "run `rx --help`, or `rx skill` for the full guide".to_owned(),
            };
            (Some(error_with_hint(ErrorCode::BadRequest, message.as_str(), hint.as_str())), 2)
        },
    }
}

} // verus!
