//! How bytes travel inside JSON strings: verbatim where they are clean text,
//! in base64 (standard alphabet, padded) otherwise.

use vstd::prelude::*;
use vstd::utf8::{decode_utf8, encode_utf8, is_ascii_chars, valid_utf8};

use crate::number::{hex_prefixed, render_hex_prefixed};

verus! {

/// The symbol for a six-bit value.
pub open spec fn symbol(v: int) -> char {
    if v < 26 {
        ((0x41 + v) as u8) as char
    } else if v < 52 {
        ((0x61 + v - 26) as u8) as char
    } else if v < 62 {
        ((0x30 + v - 52) as u8) as char
    } else if v == 62 {
        '+'
    } else {
        '/'
    }
}

/// The six-bit value that a byte stands for, if it is in the alphabet.
pub open spec fn symbol_value(b: u8) -> Option<int> {
    if 0x41 <= b <= 0x5a {
        Some(b - 0x41)
    } else if 0x61 <= b <= 0x7a {
        Some(b - 0x61 + 26)
    } else if 0x30 <= b <= 0x39 {
        Some(b - 0x30 + 52)
    } else if b == 0x2b {
        Some(62int)
    } else if b == 0x2f {
        Some(63int)
    } else {
        None
    }
}

/// The 24-bit number that up to three bytes make, the first one on top.
pub open spec fn group_number(g: Seq<u8>) -> int {
    g[0] * 65536 + (if g.len() > 1 {
        g[1] * 256
    } else {
        0
    }) + (if g.len() > 2 {
        g[2] as int
    } else {
        0
    })
}

/// The four symbols for a group of one to three bytes; `=` fills a short group.
pub open spec fn group_text(g: Seq<u8>) -> Seq<char> {
    let n = group_number(g);
    seq![
        symbol(n / 262144),
        symbol(n / 4096 % 64),
        if g.len() > 1 {
            symbol(n / 64 % 64)
        } else {
            '='
        },
        if g.len() > 2 {
            symbol(n % 64)
        } else {
            '='
        },
    ]
}

/// The base64 text of `data`.
pub open spec fn base64_text(data: Seq<u8>) -> Seq<char>
    decreases data.len(),
{
    if data.len() == 0 {
        Seq::empty()
    } else if data.len() <= 3 {
        group_text(data)
    } else {
        group_text(data.take(3)) + base64_text(data.skip(3))
    }
}

/// White space that a wrapped base64 text may hold.
pub open spec fn is_ascii_white(b: u8) -> bool {
    b == 0x20 || b == 0x09 || b == 0x0a || b == 0x0c || b == 0x0d
}

/// `bytes` without white space.
pub open spec fn black(bytes: Seq<u8>) -> Seq<u8>
    decreases bytes.len(),
{
    if bytes.len() == 0 {
        bytes
    } else if is_ascii_white(bytes.last()) {
        black(bytes.drop_last())
    } else {
        black(bytes.drop_last()).push(bytes.last())
    }
}

/// What can be wrong with a base64 text.
pub enum Fault {
    /// A symbol after `=` in the same group.
    DataAfterPadding,
    /// A byte outside the alphabet.
    InvalidByte(u8),
    /// The last group has fewer than four symbols.
    Truncated,
}

/// The message for a fault.
pub open spec fn fault_text(f: Fault) -> Seq<char> {
    match f {
        Fault::DataAfterPadding => "base64: data after padding"@,
        Fault::InvalidByte(b) => "base64: invalid byte "@ + hex_prefixed(b),
        Fault::Truncated => "base64: truncated input (length not a multiple of 4)"@,
    }
}

/// How many of the symbols `g[..i]` are padding.
pub open spec fn padding(g: Seq<u8>, i: int) -> int
    decreases i,
{
    if i <= 0 {
        0
    } else {
        padding(g, i - 1) + if g[i - 1] == 0x3d {
            1int
        } else {
            0
        }
    }
}

/// The first fault among the symbols `g[i..]` of a group.
pub open spec fn group_fault(g: Seq<u8>, i: int) -> Option<Fault>
    decreases g.len() - i,
{
    if i >= g.len() {
        None
    } else if g[i] == 0x3d {
        group_fault(g, i + 1)
    } else if padding(g, i) != 0 {
        Some(Fault::DataAfterPadding)
    } else if symbol_value(g[i]) is None {
        Some(Fault::InvalidByte(g[i]))
    } else {
        group_fault(g, i + 1)
    }
}

/// The six bits that a symbol contributes; padding contributes zeros.
pub open spec fn sextet(b: u8) -> int {
    match symbol_value(b) {
        Some(v) => v,
        None => 0,
    }
}

/// The bytes of a group of four symbols: three, less one for each padding
/// symbol, but at least one.
pub open spec fn group_bytes(g: Seq<u8>) -> Seq<u8> {
    let n = sextet(g[0]) * 262144 + sextet(g[1]) * 4096 + sextet(g[2]) * 64 + sextet(g[3]);
    let p = padding(g, 4);
    seq![(n / 65536) as u8] + (if p < 2 {
        seq![(n / 256 % 256) as u8]
    } else {
        Seq::empty()
    }) + (if p < 1 {
        seq![(n % 256) as u8]
    } else {
        Seq::empty()
    })
}

/// A byte that no base64 text holds: neither padding nor of the alphabet.
pub open spec fn is_foreign(b: u8) -> bool {
    b != 0x3d && symbol_value(b) is None
}

/// The first byte of `s` that no base64 text holds.
pub open spec fn first_foreign(s: Seq<u8>) -> Option<u8>
    decreases s.len(),
{
    if s.len() == 0 {
        None
    } else if is_foreign(s[0]) {
        Some(s[0])
    } else {
        first_foreign(s.skip(1))
    }
}

/// What the symbols `s` decode to. A padded group is the last one that counts:
/// symbols after it decode to nothing, but a foreign byte is a fault there too.
pub open spec fn decoded(s: Seq<u8>) -> Result<Seq<u8>, Fault>
    decreases s.len(),
{
    if s.len() == 0 {
        Ok(Seq::empty())
    } else {
        let g = if s.len() < 4 {
            s
        } else {
            s.take(4)
        };
        match group_fault(g, 0) {
            Some(f) => Err(f),
            None => if s.len() < 4 {
                Err(Fault::Truncated)
            } else if padding(g, 4) != 0 {
                match first_foreign(s.skip(4)) {
                    Some(b) => Err(Fault::InvalidByte(b)),
                    None => Ok(group_bytes(g)),
                }
            } else {
                match decoded(s.skip(4)) {
                    Ok(rest) => Ok(group_bytes(g) + rest),
                    Err(f) => Err(f),
                }
            },
        }
    }
}

/// What a base64 text decodes to.
pub open spec fn base64_bytes(text: Seq<char>) -> Result<Seq<u8>, Fault> {
    decoded(black(encode_utf8(text)))
}

fn symbol_of(v: u32) -> (r: char)
    requires
        v < 64,
    ensures
        r == symbol(v as int),
{
    let b: u8 = if v < 26 {
        0x41 + v as u8
    } else if v < 52 {
        0x61 + (v - 26) as u8
    } else if v < 62 {
        0x30 + (v - 52) as u8
    } else if v == 62 {
        0x2b
    } else {
        0x2f
    };
    b as char
}

/// Base64-encode a byte slice (standard alphabet, padded).
pub fn base64_encode(data: &[u8]) -> (r: String)
    ensures
        r@ == base64_text(data@),
{
    let n: usize = data.len();
    let mut out = String::new();
    let mut i: usize = 0;
    proof {
        assert(data@.skip(0) =~= data@);
        assert(out@ + base64_text(data@) =~= base64_text(data@));
    }
    while i < n
        invariant
            i <= n == data@.len(),
            out@ + base64_text(data@.skip(i as int)) == base64_text(data@),
        decreases n - i,
    {
        let ghost rest = data@.skip(i as int);
        let ghost before = out@;
        let left: usize = n - i;
        let b0: u32 = data[i] as u32;
        let b1: u32 = if left > 1 {
            data[i + 1] as u32
        } else {
            0
        };
        let b2: u32 = if left > 2 {
            data[i + 2] as u32
        } else {
            0
        };
        let triple: u32 = b0 * 65536 + b1 * 256 + b2;
        let ghost g = if rest.len() <= 3 {
            rest
        } else {
            rest.take(3)
        };
        assert(triple == group_number(g));
        out.push(symbol_of(triple / 262144));
        out.push(symbol_of(triple / 4096 % 64));
        if left > 1 {
            out.push(symbol_of(triple / 64 % 64));
        } else {
            out.push('=');
        }
        if left > 2 {
            out.push(symbol_of(triple % 64));
        } else {
            out.push('=');
        }
        assert(out@ =~= before + group_text(g));
        if left <= 3 {
            i = n;
            proof {
                assert(data@.skip(n as int) =~= Seq::<u8>::empty());
                assert(out@ + base64_text(data@.skip(i as int)) =~= before + base64_text(rest));
            }
        } else {
            i += 3;
            proof {
                assert(rest.skip(3) =~= data@.skip(i as int));
                assert(out@ + base64_text(data@.skip(i as int)) =~= before + (group_text(g)
                    + base64_text(rest.skip(3))));
            }
        }
    }
    proof {
        assert(data@.skip(i as int) =~= Seq::<u8>::empty());
        assert(out@ + base64_text(data@.skip(i as int)) =~= out@);
    }
    out
}

fn value_of(b: u8) -> (r: Option<u32>)
    ensures
        r is Some <==> symbol_value(b) is Some,
        r matches Some(v) ==> symbol_value(b) == Some(v as int) && v < 64,
{
    if 0x41 <= b && b <= 0x5a {
        Some((b - 0x41) as u32)
    } else if 0x61 <= b && b <= 0x7a {
        Some((b - 0x61) as u32 + 26)
    } else if 0x30 <= b && b <= 0x39 {
        Some((b - 0x30) as u32 + 52)
    } else if b == 0x2b {
        Some(62)
    } else if b == 0x2f {
        Some(63)
    } else {
        None
    }
}

/// The bytes of `input` that are not white space.
fn without_white(input: &[u8]) -> (r: Vec<u8>)
    ensures
        r@ == black(input@),
{
    let mut out: Vec<u8> = Vec::new();
    let mut i: usize = 0;
    assert(input@.take(0) =~= Seq::<u8>::empty());
    while i < input.len()
        invariant
            i <= input@.len(),
            out@ == black(input@.take(i as int)),
        decreases input@.len() - i,
    {
        let b: u8 = input[i];
        proof {
            assert(input@.take(i + 1).drop_last() =~= input@.take(i as int));
        }
        if !(b == 0x20 || b == 0x09 || b == 0x0a || b == 0x0c || b == 0x0d) {
            out.push(b);
        }
        i += 1;
    }
    assert(input@.take(i as int) =~= input@);
    out
}

/// The sextets of one group and the number of padding symbols in it.
fn read_group(g: &[u8]) -> (r: Result<(u32, u32), Fault>)
    requires
        0 < g@.len() <= 4,
    ensures
        match r {
            Ok((n, p)) => group_fault(g@, 0) is None && p == padding(g@, g@.len() as int) && (
            g@.len() == 4 ==> n == sextet(g@[0]) * 262144 + sextet(g@[1]) * 4096 + sextet(g@[2])
                * 64 + sextet(g@[3]) && n < 16777216),
            Err(f) => group_fault(g@, 0) == Some(f),
        },
{
    let mut n: u32 = 0;
    let mut p: u32 = 0;
    let mut i: usize = 0;
    while i < g.len()
        invariant
            i <= g@.len() <= 4,
            p == padding(g@, i as int),
            p <= i,
            group_fault(g@, 0) == group_fault(g@, i as int),
            i == 0 ==> n == 0,
            i == 1 ==> n == sextet(g@[0]),
            i == 2 ==> n == sextet(g@[0]) * 64 + sextet(g@[1]),
            i == 3 ==> n == sextet(g@[0]) * 4096 + sextet(g@[1]) * 64 + sextet(g@[2]),
            i == 4 ==> n == sextet(g@[0]) * 262144 + sextet(g@[1]) * 4096 + sextet(g@[2]) * 64
                + sextet(g@[3]),
            forall|k: int| 0 <= k < i ==> 0 <= #[trigger] sextet(g@[k]) < 64,
        decreases g@.len() - i,
    {
        let b: u8 = g[i];
        if b == 0x3d {
            p += 1;
            n = n * 64;
        } else {
            if p != 0 {
                return Err(Fault::DataAfterPadding);
            }
            match value_of(b) {
                Some(v) => {
                    n = n * 64 + v;
                },
                None => {
                    return Err(Fault::InvalidByte(b));
                },
            }
        }
        i += 1;
    }
    Ok((n, p))
}

/// The first byte from `from` on that no base64 text holds.
fn find_foreign(s: &[u8], from: usize) -> (r: Option<u8>)
    requires
        from <= s@.len(),
    ensures
        r == first_foreign(s@.skip(from as int)),
{
    let mut i: usize = from;
    while i < s.len()
        invariant
            from <= i <= s@.len(),
            first_foreign(s@.skip(from as int)) == first_foreign(s@.skip(i as int)),
        decreases s@.len() - i,
    {
        let b: u8 = s[i];
        if b != 0x3d && value_of(b).is_none() {
            return Some(b);
        }
        assert(s@.skip(i as int).skip(1) =~= s@.skip(i + 1));
        i += 1;
    }
    None
}

/// The message for a fault.
fn fault_message(f: Fault) -> (r: String)
    ensures
        r@ == fault_text(f),
{
    match f {
        Fault::DataAfterPadding => "base64: data after padding".to_owned(),
        Fault::InvalidByte(b) => {
            let mut m = "base64: invalid byte ".to_owned();
            let hex = render_hex_prefixed(b);
            m.append(hex.as_str());
            m
        },
        Fault::Truncated => "base64: truncated input (length not a multiple of 4)".to_owned(),
    }
}

/// Decode a standard-alphabet base64 string. ASCII white space is ignored so
/// wrapped input decodes cleanly; any other byte outside the alphabet is an
/// error.
pub fn base64_decode(input: &str) -> (r: Result<Vec<u8>, String>)
    ensures
        match base64_bytes(input@) {
            Ok(bytes) => r matches Ok(v) && v@ == bytes,
            Err(f) => r matches Err(m) && m@ == fault_text(f),
        },
{
    let s = without_white(input.as_bytes());
    let n: usize = s.len();
    let mut out: Vec<u8> = Vec::new();
    let mut i: usize = 0;
    let ghost whole = s@;
    proof {
        assert(whole.skip(0) =~= whole);
    }
    while i < n
        invariant
            i <= n == s@.len(),
            whole == s@,
            whole == black(encode_utf8(input@)),
            match decoded(whole.skip(i as int)) {
                Ok(rest) => decoded(whole) == Ok::<Seq<u8>, Fault>(out@ + rest),
                Err(f) => decoded(whole) == Err::<Seq<u8>, Fault>(f),
            },
        decreases n - i,
    {
        let ghost rest = whole.skip(i as int);
        let end: usize = if n - i < 4 {
            n
        } else {
            i + 4
        };
        let g = vstd::slice::slice_subrange(s.as_slice(), i, end);
        let ghost group = if rest.len() < 4 {
            rest
        } else {
            rest.take(4)
        };
        proof {
            assert(g@ =~= group);
        }
        match read_group(g) {
            Err(f) => {
                return Err(fault_message(f));
            },
            Ok((v, p)) => {
                if n - i < 4 {
                    return Err(fault_message(Fault::Truncated));
                }
                let ghost before = out@;
                out.push((v / 65536) as u8);
                if p < 2 {
                    out.push((v / 256 % 256) as u8);
                }
                if p < 1 {
                    out.push((v % 256) as u8);
                }
                proof {
                    assert(out@ =~= before + group_bytes(group));
                    assert(rest.skip(4) =~= whole.skip(i + 4));
                    assert forall|tail: Seq<u8>|
                        #![trigger out@ + tail]
                        before + (group_bytes(group) + tail) == out@ + tail by {
                        assert(before + (group_bytes(group) + tail) =~= out@ + tail);
                    }
                }
                if p != 0 {
                    return match find_foreign(s.as_slice(), i + 4) {
                        Some(b) => Err(fault_message(Fault::InvalidByte(b))),
                        None => Ok(out),
                    };
                }
                i += 4;
            },
        }
    }
    proof {
        assert(whole.skip(i as int) =~= Seq::<u8>::empty());
        assert(out@ + Seq::<u8>::empty() =~= out@);
    }
    Ok(out)
}

/// How the bytes of a text field are carried in JSON.
#[derive(Debug, Clone, Copy, PartialEq, Eq, Structural)]
pub enum Encoding {
    /// Valid UTF-8 with no NUL, carried verbatim in the JSON string.
    Utf8,
    /// Arbitrary bytes, base64-encoded in the JSON string.
    Base64,
}

impl Encoding {
    /// The name of this encoding on the wire.
    pub open spec fn name(self) -> Seq<char> {
        match self {
            Encoding::Utf8 => "utf8"@,
            Encoding::Base64 => "base64"@,
        }
    }

    /// The name of this encoding on the wire.
    pub fn as_str(self) -> (r: &'static str)
        ensures
            r@ == self.name(),
    {
        match self {
            Encoding::Utf8 => "utf8",
            Encoding::Base64 => "base64",
        }
    }
}

/// `std::str::from_utf8`: succeeds on well-formed UTF-8 alone, and then gives
/// the text those bytes encode.
#[verifier::external_body]
fn utf8_text(data: &[u8]) -> (r: Option<String>)
    ensures
        r is Some <==> valid_utf8(data@),
        r matches Some(s) ==> s@ == decode_utf8(data@),
{
    match std::str::from_utf8(data) {
        Ok(s) => Some(s.to_owned()),
        Err(_) => None,
    }
}

/// `data` can be shown as it is: well-formed text without a NUL.
pub open spec fn is_clean_text(data: Seq<u8>) -> bool {
    valid_utf8(data) && !decode_utf8(data).contains('\0')
}

/// The bytes that a text field stands for, given how it is encoded.
pub open spec fn carried(text: Seq<char>, encoding: Encoding) -> Result<Seq<u8>, Fault> {
    match encoding {
        Encoding::Utf8 => Ok(encode_utf8(text)),
        Encoding::Base64 => base64_bytes(text),
    }
}

/// Any text without a NUL is shown as it is, and a text with one is not.
pub proof fn lemma_text_is_shown_as_it_is(text: Seq<char>)
    ensures
        is_clean_text(encode_utf8(text)) <==> !text.contains('\0'),
        decode_utf8(encode_utf8(text)) == text,
        carried(text, Encoding::Utf8) == Ok::<Seq<u8>, Fault>(encode_utf8(text)),
{
    broadcast use vstd::utf8::group_utf8_lib;

    vstd::utf8::encode_utf8_valid_utf8(text);
    vstd::utf8::encode_utf8_decode_utf8(text);
}

proof fn lemma_black_of_sum(a: Seq<u8>, b: Seq<u8>)
    ensures
        black(a + b) == black(a) + black(b),
    decreases b.len(),
{
    if b.len() == 0 {
        assert(a + b =~= a);
        assert(black(a) + black(b) =~= black(a));
    } else {
        lemma_black_of_sum(a, b.drop_last());
        assert((a + b).drop_last() =~= a + b.drop_last());
        assert((a + b).last() == b.last());
        assert(black(a + b) =~= black(a) + black(b));
    }
}

/// White space does not matter, wherever it stands: a text that was wrapped decodes as
/// the text itself.
pub proof fn lemma_wrapped_text_decodes_alike(a: Seq<u8>, white: u8, b: Seq<u8>)
    requires
        is_ascii_white(white),
    ensures
        decoded(black(a + seq![white] + b)) == decoded(black(a + b)),
{
    lemma_black_of_sum(a + seq![white], b);
    lemma_black_of_sum(a, seq![white]);
    lemma_black_of_sum(a, b);
    let one = seq![white];
    assert(one.last() == white);
    assert(one.drop_last() =~= Seq::<u8>::empty());
    assert(black(one.drop_last()) =~= Seq::<u8>::empty());
    assert(black(one) =~= Seq::<u8>::empty());
    assert(black(a) + Seq::<u8>::empty() =~= black(a));
}

proof fn lemma_plain_group(g: Seq<u8>, i: int)
    requires
        0 <= i <= g.len(),
        forall|k: int| 0 <= k < g.len() ==> symbol_value(#[trigger] g[k]) is Some && g[k] != 0x3d,
    ensures
        group_fault(g, i) is None,
        padding(g, i) == 0,
    decreases g.len() - i,
{
    lemma_plain_padding(g, i);
    if i < g.len() {
        lemma_plain_group(g, i + 1);
    }
}

proof fn lemma_plain_padding(g: Seq<u8>, i: int)
    requires
        0 <= i <= g.len(),
        forall|k: int| 0 <= k < g.len() ==> symbol_value(#[trigger] g[k]) is Some && g[k] != 0x3d,
    ensures
        padding(g, i) == 0,
    decreases i,
{
    if i > 0 {
        lemma_plain_padding(g, i - 1);
    }
}

proof fn lemma_plain_parts(s: Seq<u8>)
    requires
        s.len() >= 4,
        forall|k: int| 0 <= k < s.len() ==> symbol_value(#[trigger] s[k]) is Some && s[k] != 0x3d,
    ensures
        forall|k: int|
            0 <= k < 4 ==> symbol_value(#[trigger] s.take(4)[k]) is Some && s.take(4)[k] != 0x3d,
        forall|k: int|
            0 <= k < s.len() - 4 ==> symbol_value(#[trigger] s.skip(4)[k]) is Some && s.skip(4)[k]
                != 0x3d,
{
    assert forall|k: int| 0 <= k < s.len() - 4 implies symbol_value(
        #[trigger] s.skip(4)[k],
    ) is Some && s.skip(4)[k] != 0x3d by {
        assert(s.skip(4)[k] == s[k + 4]);
    }
}

proof fn lemma_plain_step(s: Seq<u8>)
    requires
        s.len() >= 4,
        group_fault(s.take(4), 0) is None,
        padding(s.take(4), 4) == 0,
    ensures
        decoded(s) == (match decoded(s.skip(4)) {
            Ok(rest) => Ok(group_bytes(s.take(4)) + rest),
            Err(f) => Err::<Seq<u8>, Fault>(f),
        }),
        group_bytes(s.take(4)).len() == 3,
{
}

/// Symbols without padding decode exactly where there are whole groups of four of them,
/// into three bytes for each group; otherwise the text was cut off.
pub proof fn lemma_whole_groups_decode(s: Seq<u8>)
    requires
        forall|k: int| 0 <= k < s.len() ==> symbol_value(#[trigger] s[k]) is Some && s[k] != 0x3d,
    ensures
        s.len() % 4 == 0 ==> (decoded(s) matches Ok(bytes) && bytes.len() * 4 == s.len() * 3),
        s.len() % 4 != 0 ==> decoded(s) == Err::<Seq<u8>, Fault>(Fault::Truncated),
    decreases s.len(),
{
    if s.len() > 0 {
        if s.len() < 4 {
            lemma_plain_group(s, 0);
        } else {
            lemma_plain_parts(s);
            lemma_plain_group(s.take(4), 0);
            lemma_plain_padding(s.take(4), 4);
            lemma_plain_step(s);
            lemma_whole_groups_decode(s.skip(4));
        }
    }
}

/// Render bytes for JSON transport: verbatim UTF-8 when it is clean text,
/// otherwise base64. Lets agents read text output directly without decoding,
/// while staying binary-safe.
pub fn encode_bytes(data: &[u8]) -> (r: (String, Encoding))
    ensures
        is_clean_text(data@) ==> r.1 == Encoding::Utf8 && r.0@ == decode_utf8(data@),
        !is_clean_text(data@) ==> r.1 == Encoding::Base64 && r.0@ == base64_text(data@),
        carried(r.0@, r.1) == Ok::<Seq<u8>, Fault>(data@),
{
    proof {
        lemma_base64_roundtrip(data@);
    }
    match utf8_text(data) {
        Some(s) => {
            proof {
                vstd::utf8::decode_utf8_encode_utf8(data@);
            }
            if !holds_nul(s.as_str()) {
                (s, Encoding::Utf8)
            } else {
                (base64_encode(data), Encoding::Base64)
            }
        },
        None => (base64_encode(data), Encoding::Base64),
    }
}

/// Tells whether `s` holds a NUL character.
pub fn holds_nul(s: &str) -> (r: bool)
    ensures
        r == s@.contains('\0'),
{
    let chars = crate::text::chars_of(s);
    let mut i: usize = 0;
    while i < chars.len()
        invariant
            i <= chars@.len(),
            chars@ == s@,
            forall|k: int| 0 <= k < i ==> chars@[k] != '\0',
        decreases chars@.len() - i,
    {
        if chars[i] == '\0' {
            assert(s@[i as int] == '\0');
            return true;
        }
        i += 1;
    }
    false
}

// ---------------------------------------------------------------------------
// What decoding gives back of encoding
// ---------------------------------------------------------------------------

proof fn lemma_symbol(v: int)
    requires
        0 <= v < 64,
    ensures
        '\0' <= symbol(v) <= '\u{7f}',
        symbol_value(symbol(v) as u8) == Some(v),
        !is_ascii_white(symbol(v) as u8),
        symbol(v) != '=',
        symbol(v) as u8 != 0x3d,
{
}

proof fn lemma_black_of_black(bytes: Seq<u8>)
    requires
        forall|i: int| 0 <= i < bytes.len() ==> !is_ascii_white(#[trigger] bytes[i]),
    ensures
        black(bytes) == bytes,
    decreases bytes.len(),
{
    if bytes.len() > 0 {
        lemma_black_of_black(bytes.drop_last());
        assert(bytes.drop_last().push(bytes.last()) =~= bytes);
    }
}

/// The bytes of an ASCII text.
spec fn ascii_bytes(text: Seq<char>) -> Seq<u8> {
    Seq::new(text.len(), |i: int| text[i] as u8)
}

proof fn lemma_group_text_is_ascii(g: Seq<u8>)
    requires
        0 < g.len() <= 3,
    ensures
        group_text(g).len() == 4,
        forall|i: int|
            0 <= i < 4 ==> '\0' <= (#[trigger] group_text(g)[i]) <= '\u{7f}' && !is_ascii_white(
                group_text(g)[i] as u8,
            ),
{
    let n = group_number(g);
    lemma_symbol(n / 262144);
    lemma_symbol(n / 4096 % 64);
    lemma_symbol(n / 64 % 64);
    lemma_symbol(n % 64);
}

proof fn lemma_base64_text_is_ascii(data: Seq<u8>)
    ensures
        forall|i: int|
            0 <= i < base64_text(data).len() ==> '\0' <= (#[trigger] base64_text(data)[i]) <= '\u{7f}'
                && !is_ascii_white(base64_text(data)[i] as u8),
    decreases data.len(),
{
    if data.len() == 0 {
    } else if data.len() <= 3 {
        lemma_group_text_is_ascii(data);
    } else {
        lemma_group_text_is_ascii(data.take(3));
        lemma_base64_text_is_ascii(data.skip(3));
        let head = group_text(data.take(3));
        let tail = base64_text(data.skip(3));
        assert forall|i: int| 0 <= i < base64_text(data).len() implies '\0' <= (
        #[trigger] base64_text(data)[i]) <= '\u{7f}' && !is_ascii_white(
            base64_text(data)[i] as u8,
        ) by {
            if i < 4 {
                assert(base64_text(data)[i] == head[i]);
            } else {
                assert(base64_text(data)[i] == tail[i - 4]);
            }
        }
    }
}

/// Four symbols of which only trailing ones are padding have no fault.
proof fn lemma_group_shape(t: Seq<u8>, p: int)
    requires
        t.len() == 4,
        0 <= p <= 2,
        forall|i: int| 0 <= i < 4 - p ==> symbol_value(#[trigger] t[i]) is Some && t[i] != 0x3d,
        forall|i: int| 4 - p <= i < 4 ==> #[trigger] t[i] == 0x3d,
    ensures
        group_fault(t, 0) is None,
        padding(t, 4) == p,
{
    assert(padding(t, 0) == 0);
    assert(padding(t, 1) == 0);
    assert(padding(t, 2) == 0);
    assert(padding(t, 3) == if p == 2 {
        1int
    } else {
        0
    });
    assert(group_fault(t, 4) is None);
    assert(group_fault(t, 3) is None);
    assert(group_fault(t, 2) is None);
    assert(group_fault(t, 1) is None);
}

/// Cutting 24 bits into sextets loses nothing.
proof fn lemma_sextets(n: u32)
    requires
        n < 16777216,
    ensures
        n / 262144 < 64,
        n == (n / 262144) * 262144 + (n / 4096 % 64) * 4096 + (n / 64 % 64) * 64 + n % 64,
        n % 256 == 0 ==> n % 64 == 0,
        n % 65536 == 0 ==> n / 64 % 64 == 0,
{
    assert(n / 262144 < 64) by (bit_vector)
        requires
            n < 16777216,
    ;
    assert(n == (n / 262144) * 262144 + (n / 4096 % 64) * 4096 + (n / 64 % 64) * 64 + n % 64)
        by (bit_vector)
        requires
            n < 16777216,
    ;
    assert(n % 256 == 0 ==> n % 64 == 0) by (bit_vector);
    assert(n % 65536 == 0 ==> n / 64 % 64 == 0) by (bit_vector);
}

/// Cutting 24 bits into bytes gives back the bytes they were made of.
proof fn lemma_bytes(b0: u8, b1: u8, b2: u8)
    ensures
        ({
            let n = b0 * 65536 + b1 * 256 + b2;
            &&& 0 <= n < 16777216
            &&& n / 65536 == b0
            &&& n / 256 % 256 == b1
            &&& n % 256 == b2
            &&& b2 == 0 && b1 == 0 ==> n % 65536 == 0
        }),
{
}

/// The bytes of a group, zeros for those that are not there.
spec fn group_byte(g: Seq<u8>, i: int) -> u8 {
    if i < g.len() {
        g[i]
    } else {
        0
    }
}

/// The symbols of an encoded group, as bytes.
proof fn lemma_group_symbols(g: Seq<u8>)
    requires
        0 < g.len() <= 3,
    ensures
        ({
            let n = group_number(g);
            let t = ascii_bytes(group_text(g));
            &&& t.len() == 4
            &&& forall|i: int|
                0 <= i < g.len() + 1 ==> symbol_value(#[trigger] t[i]) is Some && t[i] != 0x3d
            &&& forall|i: int| g.len() + 1 <= i < 4 ==> #[trigger] t[i] == 0x3d
            &&& sextet(t[0]) == n / 262144
            &&& sextet(t[1]) == n / 4096 % 64
            &&& sextet(t[2]) == n / 64 % 64
            &&& sextet(t[3]) == n % 64
        }),
{
    let n = group_number(g);
    let t = ascii_bytes(group_text(g));
    lemma_bytes(g[0], group_byte(g, 1), group_byte(g, 2));
    lemma_sextets(group_number(g) as u32);
    lemma_symbol(n / 262144);
    lemma_symbol(n / 4096 % 64);
    lemma_symbol(n / 64 % 64);
    lemma_symbol(n % 64);
    assert(t[0] == symbol(n / 262144) as u8);
    assert(t[1] == symbol(n / 4096 % 64) as u8);
    assert(g.len() > 1 ==> t[2] == symbol(n / 64 % 64) as u8);
    assert(g.len() <= 1 ==> t[2] == 0x3d);
    assert(g.len() > 2 ==> t[3] == symbol(n % 64) as u8);
    assert(g.len() <= 2 ==> t[3] == 0x3d);
}

/// One encoded group has no fault and decodes to its bytes.
proof fn lemma_group_roundtrip(g: Seq<u8>)
    requires
        0 < g.len() <= 3,
    ensures
        ascii_bytes(group_text(g)).len() == 4,
        group_fault(ascii_bytes(group_text(g)), 0) is None,
        padding(ascii_bytes(group_text(g)), 4) == 3 - g.len(),
        group_bytes(ascii_bytes(group_text(g))) == g,
{
    let t = ascii_bytes(group_text(g));
    lemma_group_symbols(g);
    lemma_group_shape(t, 3 - g.len());
    lemma_bytes(g[0], group_byte(g, 1), group_byte(g, 2));
    lemma_sextets(group_number(g) as u32);
    assert(group_bytes(t) =~= g);
}

/// Decoding takes one faultless group at a time.
proof fn lemma_decoded_step(t: Seq<u8>, rest: Seq<u8>)
    requires
        t.len() == 4,
        group_fault(t, 0) is None,
    ensures
        padding(t, 4) != 0 ==> decoded(t + rest) == match first_foreign(rest) {
            Some(b) => Err::<Seq<u8>, Fault>(Fault::InvalidByte(b)),
            None => Ok(group_bytes(t)),
        },
        padding(t, 4) == 0 ==> decoded(t + rest) == match decoded(rest) {
            Ok(bytes) => Ok::<Seq<u8>, Fault>(group_bytes(t) + bytes),
            Err(f) => Err(f),
        },
{
    assert((t + rest).take(4) =~= t);
    assert((t + rest).skip(4) =~= rest);
}

proof fn lemma_decoded_of_text(data: Seq<u8>)
    ensures
        decoded(ascii_bytes(base64_text(data))) == Ok::<Seq<u8>, Fault>(data),
    decreases data.len(),
{
    let s = ascii_bytes(base64_text(data));
    if data.len() == 0 {
        assert(s =~= Seq::<u8>::empty());
        assert(data =~= Seq::<u8>::empty());
    } else if data.len() <= 3 {
        let none = Seq::<u8>::empty();
        lemma_group_roundtrip(data);
        lemma_decoded_step(s, none);
        assert(s + none =~= s);
        assert(decoded(none) == Ok::<Seq<u8>, Fault>(none));
        assert(data + none =~= data);
    } else {
        let g = data.take(3);
        let t = ascii_bytes(group_text(g));
        lemma_group_roundtrip(g);
        lemma_decoded_of_text(data.skip(3));
        lemma_decoded_step(t, ascii_bytes(base64_text(data.skip(3))));
        assert(s =~= t + ascii_bytes(base64_text(data.skip(3))));
        assert(g + data.skip(3) =~= data);
    }
}

/// An ASCII text without white space is read byte for byte.
proof fn lemma_plain_text(t: Seq<char>)
    requires
        forall|i: int|
            0 <= i < t.len() ==> '\0' <= (#[trigger] t[i]) <= '\u{7f}' && !is_ascii_white(t[i] as u8),
    ensures
        black(encode_utf8(t)) == ascii_bytes(t),
{
    assert(is_ascii_chars(t));
    vstd::utf8::is_ascii_chars_encode_utf8(t);
    assert(encode_utf8(t) =~= ascii_bytes(t));
    lemma_black_of_black(ascii_bytes(t));
}

/// Decoding gives back exactly the bytes that were encoded.
pub proof fn lemma_base64_roundtrip(data: Seq<u8>)
    ensures
        base64_bytes(base64_text(data)) == Ok::<Seq<u8>, Fault>(data),
{
    lemma_base64_text_is_ascii(data);
    lemma_plain_text(base64_text(data));
    lemma_decoded_of_text(data);
}

proof fn lemma_foreign_is_found(s: Seq<u8>, i: int)
    requires
        0 <= i < s.len(),
        is_foreign(s[i]),
    ensures
        first_foreign(s) is Some,
    decreases s.len(),
{
    if !is_foreign(s[0]) {
        assert(s.skip(1)[i - 1] == s[i]);
        lemma_foreign_is_found(s.skip(1), i - 1);
    }
}

proof fn lemma_foreign_in_group(g: Seq<u8>, i: int, k: int)
    requires
        0 <= i <= k < g.len(),
        is_foreign(g[k]),
    ensures
        group_fault(g, i) is Some,
    decreases k - i,
{
    if i < k {
        lemma_foreign_in_group(g, i + 1, k);
    }
}

proof fn lemma_foreign_is_a_fault(s: Seq<u8>, i: int)
    requires
        0 <= i < s.len(),
        is_foreign(s[i]),
    ensures
        decoded(s) is Err,
    decreases s.len(),
{
    let g = if s.len() < 4 {
        s
    } else {
        s.take(4)
    };
    if i < g.len() {
        assert(g[i] == s[i]);
        lemma_foreign_in_group(g, 0, i);
    } else {
        assert(s.skip(4)[i - 4] == s[i]);
        lemma_foreign_is_found(s.skip(4), i - 4);
        lemma_foreign_is_a_fault(s.skip(4), i - 4);
    }
}

proof fn lemma_black_keeps(bytes: Seq<u8>, i: int) -> (k: int)
    requires
        0 <= i < bytes.len(),
        !is_ascii_white(bytes[i]),
    ensures
        0 <= k < black(bytes).len(),
        black(bytes)[k] == bytes[i],
    decreases bytes.len(),
{
    if i == bytes.len() - 1 {
        black(bytes).len() - 1
    } else {
        lemma_black_keeps(bytes.drop_last(), i)
    }
}

/// Corrupt input never decodes: a byte that is neither white space, nor padding,
/// nor of the alphabet is an error wherever it stands.
pub proof fn lemma_foreign_byte_is_rejected(text: Seq<char>, i: int)
    requires
        0 <= i < encode_utf8(text).len(),
        !is_ascii_white(encode_utf8(text)[i]),
        is_foreign(encode_utf8(text)[i]),
    ensures
        base64_bytes(text) is Err,
{
    let k = lemma_black_keeps(encode_utf8(text), i);
    lemma_foreign_is_a_fault(black(encode_utf8(text)), k);
}

/// Different bytes have different base64 texts.
pub proof fn lemma_base64_injective(a: Seq<u8>, b: Seq<u8>)
    ensures
        base64_text(a) == base64_text(b) ==> a == b,
{
    lemma_base64_roundtrip(a);
    lemma_base64_roundtrip(b);
}

} // verus!
