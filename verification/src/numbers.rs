use vstd::prelude::*;

verus! {

/// Why a decimal number could not be read (the kinds of `core::num::IntErrorKind`
/// that a decimal parse can give).
#[derive(PartialEq, Eq, Structural, Debug, Clone, Copy)]
pub enum IntErrorKind {
    Empty,
    InvalidDigit,
    PosOverflow,
    NegOverflow,
}

/// `c` is one of the ASCII digits `0` to `9`.
pub open spec fn is_digit(c: char) -> bool {
    '0' <= c && c <= '9'
}

/// The value of the ASCII digit `c`.
pub open spec fn digit_value(c: char) -> int {
    (c as int) - ('0' as int)
}

/// Reads `digits` from left to right into a number between `min` and `max`,
/// adding each digit (or subtracting it, for a negative number). The first
/// character that is no digit, or the first digit that takes the value out of
/// range, decides the error.
pub open spec fn scan_digits(digits: Seq<char>, negative: bool, min: int, max: int) -> Result<
    int,
    IntErrorKind,
>
    decreases digits.len(),
{
    if digits.len() == 0 {
        Ok(0)
    } else {
        match scan_digits(digits.drop_last(), negative, min, max) {
            Err(e) => Err(e),
            Ok(v) => {
                let c = digits.last();
                if !is_digit(c) {
                    Err(IntErrorKind::InvalidDigit)
                } else {
                    let next = if negative {
                        v * 10 - digit_value(c)
                    } else {
                        v * 10 + digit_value(c)
                    };
                    if min <= next && next <= max {
                        Ok(next)
                    } else if negative {
                        Err(IntErrorKind::NegOverflow)
                    } else {
                        Err(IntErrorKind::PosOverflow)
                    }
                }
            },
        }
    }
}

/// What `str::parse` gives for a decimal integer type whose range is
/// `min..=max`: an optional `+` (or `-`, for a signed type) and then at least
/// one digit.
pub open spec fn parse_decimal(s: Seq<char>, signed: bool, min: int, max: int) -> Result<
    int,
    IntErrorKind,
> {
    if s.len() == 0 {
        Err(IntErrorKind::Empty)
    } else if (s[0] == '+' || s[0] == '-') && s.len() == 1 {
        Err(IntErrorKind::InvalidDigit)
    } else if s[0] == '+' {
        scan_digits(s.drop_first(), false, min, max)
    } else if s[0] == '-' && signed {
        scan_digits(s.drop_first(), true, min, max)
    } else {
        scan_digits(s, false, min, max)
    }
}

pub open spec fn spec_parse_i32(s: Seq<char>) -> Result<i32, IntErrorKind> {
    match parse_decimal(s, true, i32::MIN as int, i32::MAX as int) {
        Ok(v) => Ok(v as i32),
        Err(e) => Err(e),
    }
}

pub open spec fn spec_parse_u16(s: Seq<char>) -> Result<u16, IntErrorKind> {
    match parse_decimal(s, false, 0, u16::MAX as int) {
        Ok(v) => Ok(v as u16),
        Err(e) => Err(e),
    }
}

pub open spec fn spec_parse_u32(s: Seq<char>) -> Result<u32, IntErrorKind> {
    match parse_decimal(s, false, 0, u32::MAX as int) {
        Ok(v) => Ok(v as u32),
        Err(e) => Err(e),
    }
}

pub open spec fn spec_parse_usize(s: Seq<char>) -> Result<usize, IntErrorKind> {
    match parse_decimal(s, false, 0, usize::MAX as int) {
        Ok(v) => Ok(v as usize),
        Err(e) => Err(e),
    }
}

/// Once a prefix of the digits fails, every longer run of digits fails the same way.
proof fn lemma_scan_error_persists(
    digits: Seq<char>,
    k: int,
    negative: bool,
    min: int,
    max: int,
)
    requires
        0 <= k <= digits.len(),
        scan_digits(digits.take(k), negative, min, max) is Err,
    ensures
        scan_digits(digits, negative, min, max) == scan_digits(digits.take(k), negative, min, max),
    decreases digits.len() - k,
{
    if k < digits.len() {
        assert(digits.take(k + 1).drop_last() =~= digits.take(k));
        lemma_scan_error_persists(digits, k + 1, negative, min, max);
    } else {
        assert(digits.take(k) =~= digits);
    }
}

/// A successful scan stays within `min..=max`.
proof fn lemma_scan_in_range(digits: Seq<char>, negative: bool, min: int, max: int)
    requires
        min <= 0 <= max,
    ensures
        scan_digits(digits, negative, min, max) matches Ok(v) ==> min <= v <= max,
    decreases digits.len(),
{
    if digits.len() > 0 {
        lemma_scan_in_range(digits.drop_last(), negative, min, max);
    }
}

/// Reads the digits `s[start..]` the way `scan_digits` does.
fn scan_digits_exec(s: &[char], start: usize, negative: bool, min: i128, max: i128) -> (r: Result<
    i128,
    IntErrorKind,
>)
    requires
        start <= s@.len(),
        i64::MIN <= min <= 0 <= max <= u64::MAX,
    ensures
        match r {
            Ok(v) => scan_digits(s@.skip(start as int), negative, min as int, max as int) == Ok::<
                int,
                IntErrorKind,
            >(v as int),
            Err(e) => scan_digits(s@.skip(start as int), negative, min as int, max as int) == Err::<
                int,
                IntErrorKind,
            >(e),
        },
{
    let ghost digits = s@.skip(start as int);
    let mut v: i128 = 0;
    let mut i: usize = start;
    assert(digits.take(0) =~= Seq::<char>::empty());
    while i < s.len()
        invariant
            start <= i <= s@.len(),
            digits == s@.skip(start as int),
            i64::MIN <= min <= 0 <= max <= u64::MAX,
            min <= v <= max,
            scan_digits(digits.take(i - start), negative, min as int, max as int) == Ok::<
                int,
                IntErrorKind,
            >(v as int),
        decreases s@.len() - i,
    {
        let c = s[i];
        proof {
            assert(digits.take(i - start + 1).drop_last() =~= digits.take(i - start));
            assert(digits.take(i - start + 1).last() == c);
        }
        if c < '0' || c > '9' {
            proof {
                lemma_scan_error_persists(digits, i - start + 1, negative, min as int, max as int);
            }
            return Err(IntErrorKind::InvalidDigit);
        }
        let d: i128 = (c as u32 - 48) as i128;
        let next: i128 = if negative {
            v * 10 - d
        } else {
            v * 10 + d
        };
        if next < min || next > max {
            proof {
                lemma_scan_error_persists(digits, i - start + 1, negative, min as int, max as int);
            }
            if negative {
                return Err(IntErrorKind::NegOverflow);
            } else {
                return Err(IntErrorKind::PosOverflow);
            }
        }
        v = next;
        i = i + 1;
    }
    assert(digits.take(i - start) =~= digits);
    Ok(v)
}

/// Reads `s` as a decimal number in `min..=max` the way `str::parse` does.
fn parse_decimal_exec(s: &[char], signed: bool, min: i128, max: i128) -> (r: Result<
    i128,
    IntErrorKind,
>)
    requires
        i64::MIN <= min <= 0 <= max <= u64::MAX,
    ensures
        match r {
            Ok(v) => parse_decimal(s@, signed, min as int, max as int) == Ok::<int, IntErrorKind>(
                v as int,
            ) && min <= v <= max,
            Err(e) => parse_decimal(s@, signed, min as int, max as int) == Err::<int, IntErrorKind>(
                e,
            ),
        },
{
    if s.len() == 0 {
        return Err(IntErrorKind::Empty);
    }
    let first = s[0];
    if (first == '+' || first == '-') && s.len() == 1 {
        return Err(IntErrorKind::InvalidDigit);
    }
    let r = if first == '+' {
        scan_digits_exec(s, 1, false, min, max)
    } else if first == '-' && signed {
        scan_digits_exec(s, 1, true, min, max)
    } else {
        scan_digits_exec(s, 0, false, min, max)
    };
    proof {
        assert(s@.skip(0) =~= s@);
        assert(s@.skip(1) =~= s@.drop_first());
        lemma_scan_in_range(s@.skip(1), first == '-' && signed, min as int, max as int);
        lemma_scan_in_range(s@, false, min as int, max as int);
    }
    r
}

/// `s` read as an `i32`, as `str::parse::<i32>` reads it.
pub fn parse_i32(s: &[char]) -> (r: Result<i32, IntErrorKind>)
    ensures
        r == spec_parse_i32(s@),
{
    match parse_decimal_exec(s, true, i32::MIN as i128, i32::MAX as i128) {
        Ok(v) => Ok(v as i32),
        Err(e) => Err(e),
    }
}

/// `s` read as a `u16`, as `str::parse::<u16>` reads it.
pub fn parse_u16(s: &[char]) -> (r: Result<u16, IntErrorKind>)
    ensures
        r == spec_parse_u16(s@),
{
    match parse_decimal_exec(s, false, 0, u16::MAX as i128) {
        Ok(v) => Ok(v as u16),
        Err(e) => Err(e),
    }
}

/// `s` read as a `u32`, as `str::parse::<u32>` reads it.
pub fn parse_u32(s: &[char]) -> (r: Result<u32, IntErrorKind>)
    ensures
        r == spec_parse_u32(s@),
{
    match parse_decimal_exec(s, false, 0, u32::MAX as i128) {
        Ok(v) => Ok(v as u32),
        Err(e) => Err(e),
    }
}

/// `s` read as a `usize`, as `str::parse::<usize>` reads it.
pub fn parse_usize(s: &[char]) -> (r: Result<usize, IntErrorKind>)
    ensures
        r == spec_parse_usize(s@),
{
    match parse_decimal_exec(s, false, 0, usize::MAX as i128) {
        Ok(v) => Ok(v as usize),
        Err(e) => Err(e),
    }
}

} // verus!
