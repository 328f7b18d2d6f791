//! Integer parsing with the semantics of `u8::from_str_radix`, and the
//! small parsers built on it: hex bytes, VCP codes and comma-separated
//! risky-code lists.

use vstd::prelude::*;
use crate::text::{chars_of, string_from_range, trim_range, trim_seq, is_ws};
use crate::fmt::{digit_char, hex2_of};

verus! {

/// Why a string is not a `u8` (the kinds `ParseIntError` reports).
#[derive(Debug, Clone, Copy, PartialEq, Eq, Structural)]
pub enum IntParseError {
    Empty,
    InvalidDigit,
    PosOverflow,
}

/// The text `ParseIntError` displays for each kind.
pub open spec fn int_error_text(e: IntParseError) -> Seq<char> {
    match e {
        IntParseError::Empty => "cannot parse integer from empty string"@,
        IntParseError::InvalidDigit => "invalid digit found in string"@,
        IntParseError::PosOverflow => "number too large to fit in target type"@,
    }
}

impl IntParseError {
    /// The message of this error, as `ParseIntError` displays it.
    pub fn message(&self) -> (r: String)
        ensures
            r@ == int_error_text(*self),
    {
        match self {
            IntParseError::Empty => String::from_str("cannot parse integer from empty string"),
            IntParseError::InvalidDigit => String::from_str("invalid digit found in string"),
            IntParseError::PosOverflow => String::from_str("number too large to fit in target type"),
        }
    }
}

/// The value of `c` as a digit in `radix` (`char::to_digit`).
pub open spec fn digit_value(c: char, radix: nat) -> Option<nat> {
    let u = c as u32;
    let d: int = if 0x30 <= u <= 0x39 {
        u - 0x30
    } else if 0x61 <= u <= 0x7a {
        u - 0x61 + 10
    } else if 0x41 <= u <= 0x5a {
        u - 0x41 + 10
    } else {
        99
    };
    if d < radix {
        Some(d as nat)
    } else {
        None
    }
}

/// Reads the digits of `s` left to right onto `acc`, failing at the first
/// character that is not a digit or the first step that passes `max`.
pub open spec fn fold_digits(s: Seq<char>, radix: nat, acc: nat, max: nat) -> Result<nat, IntParseError>
    decreases s.len(),
{
    if s.len() == 0 {
        Ok(acc)
    } else {
        match digit_value(s[0], radix) {
            None => Err(IntParseError::InvalidDigit),
            Some(d) => {
                let a = acc * radix + d;
                if a > max {
                    Err(IntParseError::PosOverflow)
                } else {
                    fold_digits(s.subrange(1, s.len() as int), radix, a, max)
                }
            },
        }
    }
}

/// What `from_str_radix(s, radix)` returns for an unsigned type whose
/// largest value is `max`: an optional `+`, then one or more digits.
pub open spec fn parse_uint_spec(s: Seq<char>, radix: nat, max: nat) -> Result<nat, IntParseError> {
    if s.len() == 0 {
        Err(IntParseError::Empty)
    } else if s.len() == 1 && (s[0] == '+' || s[0] == '-') {
        Err(IntParseError::InvalidDigit)
    } else {
        let digits = if s[0] == '+' {
            s.subrange(1, s.len() as int)
        } else {
            s
        };
        fold_digits(digits, radix, 0, max)
    }
}

/// What `u8::from_str_radix(s, radix)` returns.
pub open spec fn parse_u8_spec(s: Seq<char>, radix: nat) -> Result<u8, IntParseError> {
    match parse_uint_spec(s, radix, 255) {
        Ok(v) => Ok(v as u8),
        Err(e) => Err(e),
    }
}

proof fn lemma_fold_bound(s: Seq<char>, radix: nat, acc: nat, max: nat)
    requires
        acc <= max,
    ensures
        fold_digits(s, radix, acc, max) matches Ok(v) ==> v <= max,
    decreases s.len(),
{
    if s.len() > 0 {
        if let Some(d) = digit_value(s[0], radix) {
            let a = acc * radix + d;
            if a <= max {
                lemma_fold_bound(s.subrange(1, s.len() as int), radix, a, max);
            }
        }
    }
}

fn digit_of(c: char, radix: u32) -> (r: Option<u32>)
    requires
        2 <= radix <= 36,
    ensures
        match digit_value(c, radix as nat) {
            Some(d) => r == Some(d as u32),
            None => r is None,
        },
{
    let u = c as u32;
    let d: u32 = if 0x30 <= u && u <= 0x39 {
        u - 0x30
    } else if 0x61 <= u && u <= 0x7a {
        u - 0x61 + 10
    } else if 0x41 <= u && u <= 0x5a {
        u - 0x41 + 10
    } else {
        99
    };
    if d < radix {
        Some(d)
    } else {
        None
    }
}

/// `from_str_radix` for an unsigned type whose largest value is `max`, on
/// the characters `chars[from..to]`.
pub fn parse_uint_range(chars: &Vec<char>, from: usize, to: usize, radix: u32, max: u64) -> (r: Result<u64, IntParseError>)
    requires
        from <= to <= chars.len(),
        2 <= radix <= 36,
    ensures
        match parse_uint_spec(chars@.subrange(from as int, to as int), radix as nat, max as nat) {
            Ok(v) => r == Ok::<u64, IntParseError>(v as u64) && v <= max,
            Err(e) => r == Err::<u64, IntParseError>(e),
        },
{
    let ghost s = chars@.subrange(from as int, to as int);
    if from == to {
        return Err(IntParseError::Empty);
    }
    let first = chars[from];
    if to - from == 1 && (first == '+' || first == '-') {
        return Err(IntParseError::InvalidDigit);
    }
    let start = if first == '+' { from + 1 } else { from };
    let ghost digits = chars@.subrange(start as int, to as int);
    proof {
        if first == '+' {
            assert(digits =~= s.subrange(1, s.len() as int));
        } else {
            assert(digits =~= s);
        }
        assert(s[0] == first);
        lemma_fold_bound(digits, radix as nat, 0, max as nat);
    }
    let mut acc: u128 = 0;
    let mut i = start;
    while i < to
        invariant
            start <= i <= to <= chars.len(),
            2 <= radix <= 36,
            acc <= max,
            parse_uint_spec(chars@.subrange(from as int, to as int), radix as nat, max as nat)
                == fold_digits(digits, radix as nat, 0, max as nat),
            fold_digits(digits, radix as nat, 0, max as nat) == fold_digits(
                chars@.subrange(i as int, to as int),
                radix as nat,
                acc as nat,
                max as nat,
            ),
        decreases to - i,
    {
        let ghost rest = chars@.subrange(i as int, to as int);
        assert(rest[0] == chars@[i as int]);
        assert(rest.subrange(1, rest.len() as int) =~= chars@.subrange(i + 1, to as int));
        match digit_of(chars[i], radix) {
            None => {
                return Err(IntParseError::InvalidDigit);
            },
            Some(d) => {
                assert(acc * (radix as u128) <= 0xffff_ffff_ffff_ffffu128 * 36) by (nonlinear_arith)
                    requires
                        acc <= 0xffff_ffff_ffff_ffffu128,
                        radix <= 36,
                ;
                let a = acc * (radix as u128) + (d as u128);
                if a > max as u128 {
                    return Err(IntParseError::PosOverflow);
                }
                acc = a;
            },
        }
        i = i + 1;
    }
    Ok(acc as u64)
}

/// `u8::from_str_radix` on the characters `chars[from..to]`.
pub fn parse_u8_range(chars: &Vec<char>, from: usize, to: usize, radix: u32) -> (r: Result<u8, IntParseError>)
    requires
        from <= to <= chars.len(),
        2 <= radix <= 36,
    ensures
        r == parse_u8_spec(chars@.subrange(from as int, to as int), radix as nat),
{
    match parse_uint_range(chars, from, to, radix, 255) {
        Ok(v) => Ok(v as u8),
        Err(e) => Err(e),
    }
}

/// `t` with one leading `0x` or `0X` removed.
pub open spec fn strip_hex_prefix(t: Seq<char>) -> Seq<char> {
    if t.len() >= 2 && t[0] == '0' && (t[1] == 'x' || t[1] == 'X') {
        t.subrange(2, t.len() as int)
    } else {
        t
    }
}

/// The start of `chars[from..to]` once a leading `0x`/`0X` is skipped.
pub fn hex_prefix_end(chars: &Vec<char>, from: usize, to: usize) -> (r: usize)
    requires
        from <= to <= chars.len(),
    ensures
        from <= r <= to,
        chars@.subrange(r as int, to as int) == strip_hex_prefix(chars@.subrange(from as int, to as int)),
{
    let ghost t = chars@.subrange(from as int, to as int);
    if to - from >= 2 && chars[from] == '0' && (chars[from + 1] == 'x' || chars[from + 1] == 'X') {
        assert(t[0] == chars@[from as int] && t[1] == chars@[from + 1]);
        assert(chars@.subrange(from + 2, to as int) =~= t.subrange(2, t.len() as int));
        from + 2
    } else {
        proof {
            if t.len() >= 2 {
                assert(t[0] == chars@[from as int] && t[1] == chars@[from + 1]);
            }
        }
        from
    }
}

proof fn lemma_hex_digit(d: nat)
    requires
        d < 16,
    ensures
        digit_value(digit_char(d), 16) == Some(d),
        digit_char(d) != '+' && digit_char(d) != '-' && digit_char(d) != 'x' && digit_char(d) != 'X',
        digit_char(d) != ',',
        !is_ws(digit_char(d)),
{
}

/// The two hex digits `{:02X}` writes for a byte read back as that byte;
/// they hold no sign, prefix letter, comma or whitespace.
pub proof fn lemma_hex2_parses(b: u8)
    ensures
        parse_u8_spec(hex2_of(b), 16) == Ok::<u8, IntParseError>(b),
        hex2_of(b).len() == 2,
        strip_hex_prefix(hex2_of(b)) == hex2_of(b),
        trim_seq(hex2_of(b)) == hex2_of(b),
        forall|i: int| 0 <= i < 2 ==> #[trigger] hex2_of(b)[i] != ',' && !is_ws(hex2_of(b)[i]),
{
    let hi = (b / 16) as nat;
    let lo = (b % 16) as nat;
    lemma_hex_digit(hi);
    lemma_hex_digit(lo);
    let h = hex2_of(b);
    assert(h.len() == 2 && h[0] == digit_char(hi) && h[1] == digit_char(lo));
    assert(strip_hex_prefix(h) == h);
    let rest = h.subrange(1, 2);
    assert(rest =~= seq![digit_char(lo)]);
    assert(rest.subrange(1, 1) =~= Seq::<char>::empty());
    assert(fold_digits(rest.subrange(1, 1), 16, hi * 16 + lo, 255) == Ok::<nat, IntParseError>(hi * 16 + lo));
    assert(fold_digits(rest, 16, hi, 255) == Ok::<nat, IntParseError>(hi * 16 + lo));
    assert(h.subrange(1, h.len() as int) =~= rest);
    assert(fold_digits(h, 16, 0, 255) == Ok::<nat, IntParseError>(hi * 16 + lo));
    assert(hi * 16 + lo == b);
    assert(crate::text::trim_start_seq(h) == h);
    assert(crate::text::trim_end_seq(h) == h);
}

} // verus!
