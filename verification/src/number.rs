//! Numbers as text: decimal, octal and hexadecimal, both ways.

use vstd::prelude::*;

use crate::text::chars_of;

verus! {

/// The value of a decimal digit.
pub open spec fn digit_value(c: char) -> int {
    c as u32 - 0x30
}

/// `c` is a digit in base `base`, for a base of at most ten.
pub open spec fn is_digit(c: char, base: int) -> bool {
    0x30 <= c as u32 && digit_value(c) < base
}

/// Every character of `s` is a digit in base `base`.
pub open spec fn all_digits(s: Seq<char>, base: int) -> bool {
    forall|i: int| 0 <= i < s.len() ==> is_digit(#[trigger] s[i], base)
}

/// The number that the digits `s` write in base `base`.
pub open spec fn digits_value(s: Seq<char>, base: int) -> int
    decreases s.len(),
{
    if s.len() == 0 {
        0
    } else {
        digits_value(s.drop_last(), base) * base + digit_value(s.last())
    }
}

/// The digit character of `d`.
pub open spec fn digit_char(d: int) -> char {
    ((0x30 + d) as u8) as char
}

/// `n` written in base `base`, without leading zeros.
pub open spec fn digits_of(n: nat, base: nat) -> Seq<char>
    decreases n,
{
    if base < 2 || n < base {
        seq![digit_char(n as int)]
    } else {
        proof {
            assert(n / base < n) by (nonlinear_arith)
                requires
                    2 <= base <= n,
            ;
        }
        digits_of(n / base, base).push(digit_char((n % base) as int))
    }
}

/// `n` in decimal.
pub open spec fn decimal(n: nat) -> Seq<char> {
    digits_of(n, 10)
}

/// `n` in decimal, with a minus sign where it is negative.
pub open spec fn signed_decimal(n: int) -> Seq<char> {
    if n < 0 {
        seq!['-'] + decimal((-n) as nat)
    } else {
        decimal(n as nat)
    }
}

/// Reading back what was written gives the number.
pub proof fn lemma_digits_roundtrip(n: nat, base: nat)
    requires
        2 <= base <= 10,
    ensures
        digits_of(n, base).len() > 0,
        all_digits(digits_of(n, base), base as int),
        digits_value(digits_of(n, base), base as int) == n,
    decreases n,
{
    let s = digits_of(n, base);
    if n < base {
        assert(s.drop_last() =~= Seq::<char>::empty());
        assert(digits_value(s.drop_last(), base as int) == 0);
    } else {
        assert(n / base < n) by (nonlinear_arith)
            requires
                2 <= base <= n,
        ;
        lemma_digits_roundtrip(n / base, base);
        assert(s.drop_last() =~= digits_of(n / base, base));
        assert(0 <= n % base < base) by (nonlinear_arith)
            requires
                base >= 2,
        ;
        assert((n / base) * base + n % base == n) by (nonlinear_arith)
            requires
                base >= 2,
        ;
        assert(is_digit(s.last(), base as int));
        assert forall|i: int| 0 <= i < s.len() implies is_digit(#[trigger] s[i], base as int) by {
            if i < s.len() - 1 {
                assert(s[i] == s.drop_last()[i]);
            }
        }
    }
}

/// Digits never lower the value, so a prefix that is too large stays too large.
proof fn lemma_prefix_value(s: Seq<char>, k: int, base: int)
    requires
        0 <= k <= s.len(),
        all_digits(s, base),
        base >= 1,
    ensures
        0 <= digits_value(s.take(k), base) <= digits_value(s, base),
    decreases s.len() - k,
{
    lemma_value_nonnegative(s.take(k), base);
    if k == s.len() {
        assert(s.take(k) =~= s);
    } else {
        let next = s.take(k + 1);
        assert(next.drop_last() =~= s.take(k));
        assert(next.last() == s[k]);
        lemma_prefix_value(s, k + 1, base);
        let v = digits_value(s.take(k), base);
        assert(v * base >= v) by (nonlinear_arith)
            requires
                v >= 0,
                base >= 1,
        ;
        assert(is_digit(s[k], base));
    }
}

proof fn lemma_value_nonnegative(s: Seq<char>, base: int)
    requires
        all_digits(s, base),
        base >= 1,
    ensures
        digits_value(s, base) >= 0,
    decreases s.len(),
{
    if s.len() > 0 {
        lemma_value_nonnegative(s.drop_last(), base);
        let v = digits_value(s.drop_last(), base);
        assert(v * base >= 0) by (nonlinear_arith)
            requires
                v >= 0,
                base >= 1,
        ;
        assert(is_digit(s.last(), base));
    }
}

/// Appends `n` in base `base` to `out`.
fn push_digits(out: &mut String, n: u64, base: u64)
    requires
        2 <= base <= 10,
    ensures
        final(out)@ == old(out)@ + digits_of(n as nat, base as nat),
    decreases n,
{
    if n >= base {
        assert(n / base < n) by (nonlinear_arith)
            requires
                2 <= base <= n,
        ;
        push_digits(out, n / base, base);
    }
    let d: u64 = n % base;
    let c: u8 = 0x30 + d as u8;
    let ghost before = out@;
    out.push(c as char);
    proof {
        if n < base {
            assert(n % base == n) by (nonlinear_arith)
                requires
                    0 <= n < base,
            ;
        }
        assert(out@ =~= old(out)@ + digits_of(n as nat, base as nat));
    }
}

/// `n` in decimal.
pub fn render_u64(n: u64) -> (r: String)
    ensures
        r@ == decimal(n as nat),
{
    let mut out = String::new();
    push_digits(&mut out, n, 10);
    assert(out@ =~= decimal(n as nat));
    out
}

/// `n` in octal, without leading zeros.
pub fn render_octal(n: u64) -> (r: String)
    ensures
        r@ == digits_of(n as nat, 8),
{
    let mut out = String::new();
    push_digits(&mut out, n, 8);
    assert(out@ =~= digits_of(n as nat, 8));
    out
}

/// `n` in decimal, with a minus sign where it is negative.
pub fn render_i32(n: i32) -> (r: String)
    ensures
        r@ == signed_decimal(n as int),
{
    let mut out = String::new();
    if n < 0 {
        out.push('-');
        let magnitude: i64 = -(n as i64);
        push_digits(&mut out, magnitude as u64, 10);
    } else {
        push_digits(&mut out, n as u64, 10);
    }
    assert(out@ =~= signed_decimal(n as int));
    out
}

// ---------------------------------------------------------------------------
// Reading
// ---------------------------------------------------------------------------

/// The number that `s` writes in base `base` with digits alone.
pub open spec fn plain_number(s: Seq<char>, base: int) -> Option<int> {
    if s.len() > 0 && all_digits(s, base) {
        Some(digits_value(s, base))
    } else {
        None
    }
}

/// An unsigned decimal of at most `max`, with an optional plus sign.
pub open spec fn unsigned_number(s: Seq<char>, max: int) -> Option<int> {
    let body = if s.len() > 0 && s[0] == '+' {
        s.skip(1)
    } else {
        s
    };
    match plain_number(body, 10) {
        Some(n) if n <= max => Some(n),
        _ => None,
    }
}

/// A decimal between `min` and `max`, with an optional sign.
pub open spec fn signed_number(s: Seq<char>, min: int, max: int) -> Option<int> {
    if s.len() > 0 && s[0] == '-' {
        match plain_number(s.skip(1), 10) {
            Some(n) if -n >= min => Some(-n),
            _ => None,
        }
    } else {
        unsigned_number(s, max)
    }
}

/// What is read is within its bounds, a sign in front counts as such, and a text with
/// anything but digits behind its sign is no number.
pub proof fn lemma_only_numbers_are_read(s: Seq<char>, min: int, max: int, i: int)
    ensures
        unsigned_number(s, max) matches Some(n) ==> 0 <= n <= max,
        signed_number(s, min, max) matches Some(n) ==> (n < 0 ==> n >= min) && (n > 0 ==> n <= max),
        unsigned_number(Seq::empty(), max) is None,
        0 < i < s.len() && !is_digit(s[i], 10) ==> unsigned_number(s, max) is None && signed_number(
            s,
            min,
            max,
        ) is None,
        s.len() > 0 && s[0] == '-' ==> unsigned_number(s, max) is None,
        all_digits(s, 10) && s.len() > 0 && digits_value(s, 10) <= max ==> unsigned_number(
            seq!['+'] + s,
            max,
        ) == Some(digits_value(s, 10)) && unsigned_number(s, max) == Some(digits_value(s, 10)),
        all_digits(s, 10) && s.len() > 0 && -digits_value(s, 10) >= min ==> signed_number(
            seq!['-'] + s,
            min,
            max,
        ) == Some(-digits_value(s, 10)),
        all_digits(s, 10) && digits_value(s, 10) > max ==> unsigned_number(s, max) is None,
{
    lemma_plain_nonnegative(s, 10);
    lemma_plain_nonnegative(s.skip(1), 10);
    assert((seq!['+'] + s).skip(1) =~= s);
    assert((seq!['-'] + s).skip(1) =~= s);
    if 0 < i < s.len() && !is_digit(s[i], 10) {
        assert(!all_digits(s, 10));
        assert(s.skip(1)[i - 1] == s[i]);
        assert(!all_digits(s.skip(1), 10));
    }
    if s.len() > 0 {
        lemma_signs_are_no_digits(s[0]);
        if all_digits(s, 10) {
            assert(is_digit(s[0], 10));
        }
    }
}

proof fn lemma_signs_are_no_digits(c: char)
    ensures
        c == '+' || c == '-' ==> !is_digit(c, 10),
{
}

/// Reads the digits `chars[from..]` in base `base`, up to `max`.
fn read_digits(chars: &Vec<char>, from: usize, base: u32, max: u64) -> (r: Option<u64>)
    requires
        from <= chars@.len(),
        2 <= base <= 10,
    ensures
        match plain_number(chars@.skip(from as int), base as int) {
            Some(n) => if n <= max {
                r == Some(n as u64)
            } else {
                r is None
            },
            None => r is None,
        },
{
    let ghost body = chars@.skip(from as int);
    if from == chars.len() {
        return None;
    }
    let mut acc: u64 = 0;
    let mut i: usize = from;
    let mut fits = true;
    while i < chars.len()
        invariant
            from <= i <= chars@.len(),
            2 <= base <= 10,
            body == chars@.skip(from as int),
            all_digits(body.take(i - from), base as int),
            fits ==> acc == digits_value(body.take(i - from), base as int) && acc <= max,
            !fits ==> digits_value(body.take(i - from), base as int) > max,
        decreases chars@.len() - i,
    {
        let v: u32 = chars[i] as u32;
        let ghost k = i - from;
        proof {
            assert(body.take(k + 1).drop_last() =~= body.take(k));
            assert(body.take(k + 1).last() == body[k]);
            assert(body[k] == chars@[i as int]);
        }
        if v < 0x30 || v - 0x30 >= base {
            assert(!is_digit(body[k], base as int));
            return None;
        }
        let d: u32 = v - 0x30;
        if fits {
            assert(acc as int * base as int <= 0xffff_ffff_ffff_ffff * 10) by (nonlinear_arith)
                requires
                    0 <= acc <= 0xffff_ffff_ffff_ffff,
                    0 <= base <= 10,
            ;
            let wide: u128 = acc as u128 * base as u128 + d as u128;
            if wide > max as u128 {
                fits = false;
            } else {
                acc = wide as u64;
            }
        } else {
            proof {
                let p = digits_value(body.take(k), base as int);
                assert(p * base >= p) by (nonlinear_arith)
                    requires
                        p >= 0,
                        base >= 1,
                ;
            }
        }
        proof {
            assert forall|j: int| 0 <= j < k + 1 implies is_digit(
                #[trigger] body.take(k + 1)[j],
                base as int,
            ) by {
                if j < k {
                    assert(body.take(k + 1)[j] == body.take(k)[j]);
                }
            }
        }
        i += 1;
    }
    proof {
        assert(body.take(i - from) =~= body);
    }
    if fits {
        Some(acc)
    } else {
        None
    }
}

/// Parses an unsigned decimal of at most `max`.
pub fn parse_unsigned(s: &str, max: u64) -> (r: Option<u64>)
    ensures
        r is Some <==> unsigned_number(s@, max as int) is Some,
        r matches Some(n) ==> unsigned_number(s@, max as int) == Some(n as int),
{
    let chars = chars_of(s);
    assert(chars@.skip(0) =~= s@);
    proof {
        lemma_plain_nonnegative(s@, 10);
        lemma_plain_nonnegative(s@.skip(1), 10);
    }
    if chars.len() > 0 && chars[0] == '+' {
        read_digits(&chars, 1, 10, max)
    } else {
        read_digits(&chars, 0, 10, max)
    }
}

proof fn lemma_plain_nonnegative(s: Seq<char>, base: int)
    requires
        base >= 1,
    ensures
        plain_number(s, base) matches Some(n) ==> n >= 0,
{
    if all_digits(s, base) {
        lemma_value_nonnegative(s, base);
    }
}

/// Parses an unsigned decimal that fits in 64 bits.
pub fn parse_u64(s: &str) -> (r: Option<u64>)
    ensures
        r is Some <==> unsigned_number(s@, u64::MAX as int) is Some,
        r matches Some(n) ==> unsigned_number(s@, u64::MAX as int) == Some(n as int),
{
    parse_unsigned(s, u64::MAX)
}

/// Parses an unsigned decimal that fits in 32 bits.
pub fn parse_u32(s: &str) -> (r: Option<u32>)
    ensures
        r is Some <==> unsigned_number(s@, u32::MAX as int) is Some,
        r matches Some(n) ==> unsigned_number(s@, u32::MAX as int) == Some(n as int),
{
    match parse_unsigned(s, u32::MAX as u64) {
        Some(n) => Some(n as u32),
        None => None,
    }
}

/// Parses a signed decimal that fits in 32 bits.
pub fn parse_i32(s: &str) -> (r: Option<i32>)
    ensures
        r is Some <==> signed_number(s@, i32::MIN as int, i32::MAX as int) is Some,
        r matches Some(n) ==> signed_number(s@, i32::MIN as int, i32::MAX as int) == Some(n as int),
{
    let chars = chars_of(s);
    proof {
        lemma_plain_nonnegative(s@.skip(1), 10);
    }
    if chars.len() > 0 && chars[0] == '-' {
        match read_digits(&chars, 1, 10, 0x8000_0000) {
            Some(n) => Some((-(n as i64)) as i32),
            None => None,
        }
    } else {
        match parse_unsigned(s, i32::MAX as u64) {
            Some(n) => Some(n as i32),
            None => None,
        }
    }
}

/// Parses octal digits, and nothing else, that fit in 32 bits.
pub fn parse_octal(s: &str) -> (r: Option<u32>)
    ensures
        r is Some <==> (plain_number(s@, 8) matches Some(n) && n <= u32::MAX),
        r matches Some(m) ==> plain_number(s@, 8) == Some(m as int),
{
    let chars = chars_of(s);
    assert(chars@.skip(0) =~= s@);
    proof {
        lemma_plain_nonnegative(s@, 8);
    }
    match read_digits(&chars, 0, 8, u32::MAX as u64) {
        Some(n) => Some(n as u32),
        None => None,
    }
}

// ---------------------------------------------------------------------------
// Hexadecimal
// ---------------------------------------------------------------------------

/// The small hexadecimal digit of `d`.
pub open spec fn hex_char(d: int) -> char {
    if d < 10 {
        ((0x30 + d) as u8) as char
    } else {
        ((0x61 + d - 10) as u8) as char
    }
}

/// Two small hexadecimal digits for `b`.
pub open spec fn hex_pair(b: u8) -> Seq<char> {
    seq![hex_char(b as int / 16), hex_char(b as int % 16)]
}

/// `b` in hexadecimal after `0x`, without a leading zero.
pub open spec fn hex_prefixed(b: u8) -> Seq<char> {
    if b < 16 {
        "0x"@ + seq![hex_char(b as int)]
    } else {
        "0x"@ + hex_pair(b)
    }
}

/// The small hexadecimal digit of `d`.
pub fn hex_digit(d: u8) -> (r: char)
    requires
        d < 16,
    ensures
        r == hex_char(d as int),
{
    if d < 10 {
        let v: u8 = 0x30 + d;
        v as char
    } else {
        let v: u8 = 0x61 + (d - 10);
        v as char
    }
}

/// Appends two hexadecimal digits for `b`.
pub fn push_hex_pair(out: &mut String, b: u8)
    ensures
        final(out)@ == old(out)@ + hex_pair(b),
{
    out.push(hex_digit(b / 16));
    out.push(hex_digit(b % 16));
    assert(out@ =~= old(out)@ + hex_pair(b));
}

/// `b` in hexadecimal after `0x`.
pub fn render_hex_prefixed(b: u8) -> (r: String)
    ensures
        r@ == hex_prefixed(b),
{
    let mut out = "0x".to_owned();
    if b < 16 {
        out.push(hex_digit(b));
        assert(out@ =~= hex_prefixed(b));
    } else {
        push_hex_pair(&mut out, b);
    }
    out
}

/// Reading back a signed number gives the number.
pub proof fn lemma_signed_roundtrip(n: i32)
    ensures
        signed_number(signed_decimal(n as int), i32::MIN as int, i32::MAX as int) == Some(n as int),
        signed_decimal(n as int).len() > 0,
        forall|i: int|
            0 <= i < signed_decimal(n as int).len() ==> {
                let c = #[trigger] signed_decimal(n as int)[i];
                c == '-' || is_digit(c, 10)
            },
{
    let s = signed_decimal(n as int);
    if n < 0 {
        let m = (-(n as int)) as nat;
        lemma_digits_roundtrip(m, 10);
        assert(s.skip(1) =~= decimal(m));
        assert forall|i: int| 0 <= i < s.len() implies ({
            let c = #[trigger] s[i];
            c == '-' || is_digit(c, 10)
        }) by {
            if i > 0 {
                assert(s[i] == decimal(m)[i - 1]);
            }
        }
    } else {
        lemma_digits_roundtrip(n as nat, 10);
        assert(is_digit(s[0], 10));
        assert(s[0] != '+' && s[0] != '-');
    }
}

/// Reading back an unsigned number gives the number.
pub proof fn lemma_unsigned_roundtrip(n: nat, max: int)
    requires
        n <= max,
    ensures
        unsigned_number(decimal(n), max) == Some(n as int),
{
    lemma_digits_roundtrip(n, 10);
    assert(is_digit(decimal(n)[0], 10));
    assert(decimal(n)[0] != '+');
}

} // verus!
