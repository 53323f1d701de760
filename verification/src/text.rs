use vstd::prelude::*;

use crate::numbers::{digit_value, is_digit, parse_decimal, scan_digits, IntErrorKind};

verus! {

/// The ASCII digit for `d`, which is below ten.
pub open spec fn digit_char(d: nat) -> char {
    if d == 0 {
        '0'
    } else if d == 1 {
        '1'
    } else if d == 2 {
        '2'
    } else if d == 3 {
        '3'
    } else if d == 4 {
        '4'
    } else if d == 5 {
        '5'
    } else if d == 6 {
        '6'
    } else if d == 7 {
        '7'
    } else if d == 8 {
        '8'
    } else {
        '9'
    }
}

/// `n` written in decimal, with no leading zeros (`{}` formatting).
pub open spec fn decimal(n: nat) -> Seq<char>
    decreases n,
{
    if n < 10 {
        seq![digit_char(n)]
    } else {
        decimal(n / 10).push(digit_char(n % 10))
    }
}

/// `n` written in decimal with a leading `-` when it is negative.
pub open spec fn signed_decimal(n: int) -> Seq<char> {
    if n < 0 {
        seq!['-'] + decimal((-n) as nat)
    } else {
        decimal(n as nat)
    }
}

/// `n` in decimal, padded on the left with zeros to at least `width`
/// characters (`{:0width$}` formatting).
pub open spec fn zero_padded(n: nat, width: nat) -> Seq<char> {
    let digits = decimal(n);
    if digits.len() < width {
        Seq::new((width - digits.len()) as nat, |i: int| '0') + digits
    } else {
        digits
    }
}

/// The line `writeln!(strm, "{:}", data)` writes.
pub open spec fn plain_line(data: Seq<char>) -> Seq<char> {
    data.push('\n')
}

/// The line `writeln!(strm, "{:} {:} {:}.{:09}", v0, data, v1, v2)` writes.
pub open spec fn time_line(data: Seq<char>, v0: u64, v1: u64, v2: u32) -> Seq<char> {
    decimal(v0 as nat) + seq![' '] + data + seq![' '] + decimal(v1 as nat) + seq!['.']
        + zero_padded(v2 as nat, 9) + seq!['\n']
}

/// The line that opens the meta-block log of a compression run.
pub open spec fn window_line(lgwin: i32) -> Seq<char> {
    "window "@ + signed_decimal(lgwin as int) + " 0 0 0\n"@
}

proof fn lemma_digit_char(d: nat)
    requires
        d < 10,
    ensures
        is_digit(digit_char(d)),
        digit_value(digit_char(d)) == d,
{
}

fn digit_str(d: u64) -> (s: &'static str)
    requires
        d < 10,
    ensures
        s@ == seq![digit_char(d as nat)],
{
    proof {
        reveal_strlit("0");
        reveal_strlit("1");
        reveal_strlit("2");
        reveal_strlit("3");
        reveal_strlit("4");
        reveal_strlit("5");
        reveal_strlit("6");
        reveal_strlit("7");
        reveal_strlit("8");
        reveal_strlit("9");
    }
    if d == 0 {
        "0"
    } else if d == 1 {
        "1"
    } else if d == 2 {
        "2"
    } else if d == 3 {
        "3"
    } else if d == 4 {
        "4"
    } else if d == 5 {
        "5"
    } else if d == 6 {
        "6"
    } else if d == 7 {
        "7"
    } else if d == 8 {
        "8"
    } else {
        "9"
    }
}

/// Appends `n` in decimal to `out`.
pub fn push_decimal(out: &mut String, n: u64)
    ensures
        final(out)@ == old(out)@ + decimal(n as nat),
    decreases n,
{
    if n >= 10 {
        push_decimal(out, n / 10);
    }
    out.append(digit_str(n % 10));
    proof {
        if n >= 10 {
            assert(decimal(n as nat) == decimal((n / 10) as nat).push(digit_char((n % 10) as nat)));
        }
    }
}

/// Appends `n` in decimal, with a leading `-` when negative, to `out`.
pub fn push_signed_decimal(out: &mut String, n: i64)
    ensures
        final(out)@ == old(out)@ + signed_decimal(n as int),
{
    if n < 0 {
        out.append("-");
        let magnitude: u64 = if n == i64::MIN {
            9223372036854775808u64
        } else {
            (-n) as u64
        };
        push_decimal(out, magnitude);
        proof {
            reveal_strlit("-");
        }
    } else {
        push_decimal(out, n as u64);
    }
}

/// Appends `n` in decimal, padded with zeros to at least `width` characters.
pub fn push_zero_padded(out: &mut String, n: u64, width: usize)
    ensures
        final(out)@ == old(out)@ + zero_padded(n as nat, width as nat),
{
    let mut digits = String::new();
    push_decimal(&mut digits, n);
    let len: usize = digits.as_str().unicode_len();
    proof {
        assert(digits@ =~= decimal(n as nat));
    }
    let ghost start = out@;
    if len < width {
        let mut k: usize = len;
        while k < width
            invariant
                len <= k <= width,
                out@ == start + Seq::new((k - len) as nat, |i: int| '0'),
            decreases width - k,
        {
            out.append("0");
            proof {
                reveal_strlit("0");
                assert(Seq::new((k - len) as nat, |i: int| '0').push('0') =~= Seq::new(
                    (k + 1 - len) as nat,
                    |i: int| '0',
                ));
            }
            k = k + 1;
        }
    }
    out.append(digits.as_str());
    assert(out@ =~= old(out)@ + zero_padded(n as nat, width as nat));
}

/// Writes `data` and a line break to `strm`.
pub fn writeln0(strm: &mut String, data: &str)
    ensures
        final(strm)@ == old(strm)@ + plain_line(data@),
{
    strm.append(data);
    strm.append("\n");
    proof {
        reveal_strlit("\n");
    }
    assert(strm@ =~= old(strm)@ + plain_line(data@));
}

/// Writes a timing line to `strm`: `v0`, then `data`, then the time
/// `v1.v2` with the fraction `v2` padded to nine digits, and a line break.
pub fn writeln_time(strm: &mut String, data: &str, v0: u64, v1: u64, v2: u32)
    ensures
        final(strm)@ == old(strm)@ + time_line(data@, v0, v1, v2),
{
    proof {
        reveal_strlit(" ");
        reveal_strlit(".");
        reveal_strlit("\n");
    }
    push_decimal(strm, v0);
    strm.append(" ");
    strm.append(data);
    strm.append(" ");
    push_decimal(strm, v1);
    strm.append(".");
    push_zero_padded(strm, v2 as u64, 9);
    strm.append("\n");
    assert(strm@ =~= old(strm)@ + time_line(data@, v0, v1, v2));
}

/// Writes the line that opens the meta-block log for window size `lgwin`.
pub fn write_window_line(strm: &mut String, lgwin: i32)
    ensures
        final(strm)@ == old(strm)@ + window_line(lgwin),
{
    strm.append("window ");
    push_signed_decimal(strm, lgwin as i64);
    strm.append(" 0 0 0\n");
    assert(strm@ =~= old(strm)@ + window_line(lgwin));
}

proof fn lemma_decimal_first_is_digit(n: nat)
    ensures
        decimal(n).len() >= 1,
        is_digit(decimal(n)[0]),
    decreases n,
{
    if n >= 10 {
        lemma_decimal_first_is_digit(n / 10);
    } else {
        lemma_digit_char(n);
    }
}

proof fn lemma_scan_decimal(n: nat, negative: bool, min: int, max: int)
    requires
        min <= 0 <= max,
        negative ==> -n >= min,
        !negative ==> n <= max,
    ensures
        scan_digits(decimal(n), negative, min, max) == Ok::<int, IntErrorKind>(
            if negative {
                -n
            } else {
                n as int
            },
        ),
    decreases n,
{
    let d = decimal(n);
    if n < 10 {
        lemma_digit_char(n);
        assert(d.drop_last() =~= Seq::<char>::empty());
    } else {
        lemma_scan_decimal(n / 10, negative, min, max);
        lemma_digit_char(n % 10);
        assert(d.drop_last() =~= decimal(n / 10));
        assert(n == (n / 10) * 10 + n % 10);
    }
}

/// What the tool prints as a number, its argument grammar reads back as the
/// same number: for every value of a decimal type with range `min..=max`,
/// parsing its decimal rendering gives the value.
pub proof fn law_decimal_round_trip(n: int, signed: bool, min: int, max: int)
    requires
        min <= 0 <= max,
        min <= n <= max,
        !signed ==> n >= 0,
    ensures
        parse_decimal(signed_decimal(n), signed, min, max) == Ok::<int, IntErrorKind>(n),
{
    if n < 0 {
        let s = signed_decimal(n);
        lemma_scan_decimal((-n) as nat, true, min, max);
        lemma_decimal_first_is_digit((-n) as nat);
        assert(s.drop_first() =~= decimal((-n) as nat));
    } else {
        lemma_scan_decimal(n as nat, false, min, max);
        lemma_decimal_first_is_digit(n as nat);
    }
}

/// `n` padded to `width` is exactly as long as the longer of `width` and
/// `n`'s digits, ends with `n`'s digits, and has only zeros before them.
pub proof fn law_zero_padded_shape(n: nat, width: nat)
    ensures
        ({
            let padded = zero_padded(n, width);
            let digits = decimal(n);
            let pad = padded.len() - digits.len();
            &&& padded.len() == if width > digits.len() {
                width
            } else {
                digits.len()
            }
            &&& padded.len() >= width
            &&& padded.subrange(pad, padded.len() as int) == digits
            &&& forall|i: int| 0 <= i < pad ==> padded[i] == '0'
        }),
{
    let padded = zero_padded(n, width);
    let digits = decimal(n);
    let pad = padded.len() - digits.len();
    if digits.len() < width {
        assert(padded.subrange(pad, padded.len() as int) =~= digits);
    } else {
        assert(padded.subrange(0, padded.len() as int) =~= digits);
    }
}

} // verus!
