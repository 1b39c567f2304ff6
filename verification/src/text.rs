//! Text renderings of integers, byte sizes and durations.

use crate::binary64::{
    quotient_tenths, tenths, theorem_binary_unit_tenths, theorem_quotient_tenths_near,
    power_of_two, round_half_even, two_pow_52,
};
use vstd::prelude::*;
use vstd::string::*;

verus! {

/// The character of one decimal digit.
pub open spec fn digit_char(d: nat) -> char {
    if d == 0 {
        '0'
    } else if d == 1 {
        '1'
    } else if d == 2 {
        '2'
    } else if d == 3 {
        '3'
    } else if d == 4 {
        '4'
    } else if d == 5 {
        '5'
    } else if d == 6 {
        '6'
    } else if d == 7 {
        '7'
    } else if d == 8 {
        '8'
    } else {
        '9'
    }
}

/// The decimal digits of `n`, most significant first, without leading zeros;
/// zero is the single digit `0`.
pub open spec fn decimal_digits(n: nat) -> Seq<char>
    decreases n,
{
    if n < 10 {
        seq![digit_char(n)]
    } else {
        decimal_digits(n / 10).push(digit_char(n % 10))
    }
}

/// The decimal text of a signed integer: a minus sign, if negative, then the
/// digits of its magnitude.
pub open spec fn decimal_text(n: int) -> Seq<char> {
    if n < 0 {
        seq!['-'] + decimal_digits((-n) as nat)
    } else {
        decimal_digits(n as nat)
    }
}

/// The one-character text of a decimal digit.
fn digit_str(d: u8) -> (s: &'static str)
    requires
        d < 10,
    ensures
        s@ == seq![digit_char(d as nat)],
{
    proof {
        reveal_strlit("0");
        reveal_strlit("1");
        reveal_strlit("2");
        reveal_strlit("3");
        reveal_strlit("4");
        reveal_strlit("5");
        reveal_strlit("6");
        reveal_strlit("7");
        reveal_strlit("8");
        reveal_strlit("9");
    }
    let s = if d == 0 {
        "0"
    } else if d == 1 {
        "1"
    } else if d == 2 {
        "2"
    } else if d == 3 {
        "3"
    } else if d == 4 {
        "4"
    } else if d == 5 {
        "5"
    } else if d == 6 {
        "6"
    } else if d == 7 {
        "7"
    } else if d == 8 {
        "8"
    } else {
        "9"
    };
    assert(s@ =~= seq![digit_char(d as nat)]);
    s
}

/// Appends the decimal digits of `n` to `out`.
pub fn push_digits(out: &mut String, n: u128)
    ensures
        final(out)@ == old(out)@ + decimal_digits(n as nat),
    decreases n,
{
    if n >= 10 {
        push_digits(out, n / 10);
    }
    let d: u8 = (n % 10) as u8;
    out.append(digit_str(d));
    assert(out@ =~= old(out)@ + decimal_digits(n as nat));
}

/// Appends the decimal text of `n` to `out`.
pub fn push_int(out: &mut String, n: i64)
    ensures
        final(out)@ == old(out)@ + decimal_text(n as int),
{
    if n < 0 {
        proof {
            reveal_strlit("-");
        }
        out.append("-");
        let magnitude: u128 = (-(n as i128)) as u128;
        push_digits(out, magnitude);
        assert(out@ =~= old(out)@ + decimal_text(n as int));
    } else {
        push_digits(out, n as u128);
    }
}

/// A number of tenths written with one decimal place.
pub open spec fn tenths_text(tenths: nat) -> Seq<char> {
    decimal_digits(tenths / 10) + seq!['.', digit_char(tenths % 10)]
}

/// A byte size as text: below 1024 the bare count with the suffix `B`, else
/// the count of binary units (1024, 1024^2, 1024^3) with one decimal place and
/// the suffix `KB`, `MB` or `GB`.
pub open spec fn filesize_text(bytes: int) -> Seq<char> {
    if bytes < 1024 {
        decimal_text(bytes) + seq![' ', 'B']
    } else if bytes < 1024 * 1024 {
        tenths_text(quotient_tenths(bytes as nat, 1024)) + seq![' ', 'K', 'B']
    } else if bytes < 1024 * 1024 * 1024 {
        tenths_text(quotient_tenths(bytes as nat, 1024 * 1024)) + seq![' ', 'M', 'B']
    } else {
        tenths_text(quotient_tenths(bytes as nat, 1024 * 1024 * 1024)) + seq![' ', 'G', 'B']
    }
}

/// A duration in nanoseconds as text: below 1000 the bare count with the
/// suffix `ns`, else the count of decimal units (10^3, 10^6, 10^9) with one
/// decimal place and the suffix `\u{b5}s`, `ms` or `s`.
pub open spec fn duration_text(nanos: int) -> Seq<char> {
    if nanos < 1_000 {
        decimal_text(nanos) + seq![' ', 'n', 's']
    } else if nanos < 1_000_000 {
        tenths_text(quotient_tenths(nanos as nat, 1_000)) + seq![' ', '\u{b5}', 's']
    } else if nanos < 1_000_000_000 {
        tenths_text(quotient_tenths(nanos as nat, 1_000_000)) + seq![' ', 'm', 's']
    } else {
        tenths_text(quotient_tenths(nanos as nat, 1_000_000_000)) + seq![' ', 's']
    }
}

/// Appends a number of tenths, written with one decimal place.
fn push_tenths(out: &mut String, t: u128)
    ensures
        final(out)@ == old(out)@ + tenths_text(t as nat),
{
    push_digits(out, t / 10);
    proof {
        reveal_strlit(".");
    }
    out.append(".");
    out.append(digit_str((t % 10) as u8));
    assert(out@ =~= old(out)@ + tenths_text(t as nat));
}

/// Renders a byte size: `512 B`, `1.5 KB`, `1.0 MB`.
pub fn format_filesize(bytes: i64) -> (text: String)
    ensures
        text@ == filesize_text(bytes as int),
{
    let mut out = String::new();
    proof {
        reveal_strlit(" B");
        reveal_strlit(" KB");
        reveal_strlit(" MB");
        reveal_strlit(" GB");
    }
    if bytes < 1024 {
        push_int(&mut out, bytes);
        out.append(" B");
    } else if bytes < 1024 * 1024 {
        push_tenths(&mut out, tenths(bytes as u64, 1024));
        out.append(" KB");
    } else if bytes < 1024 * 1024 * 1024 {
        push_tenths(&mut out, tenths(bytes as u64, 1024 * 1024));
        out.append(" MB");
    } else {
        push_tenths(&mut out, tenths(bytes as u64, 1024 * 1024 * 1024));
        out.append(" GB");
    }
    assert(out@ =~= filesize_text(bytes as int));
    out
}

/// Renders a duration given in nanoseconds: `500 ns`, `2.5 ms`, `2.5 s`.
pub fn format_duration(nanos: i64) -> (text: String)
    ensures
        text@ == duration_text(nanos as int),
{
    let mut out = String::new();
    proof {
        reveal_strlit(" ns");
        reveal_strlit(" \u{b5}s");
        reveal_strlit(" ms");
        reveal_strlit(" s");
    }
    if nanos < 1_000 {
        push_int(&mut out, nanos);
        out.append(" ns");
    } else if nanos < 1_000_000 {
        push_tenths(&mut out, tenths(nanos as u64, 1_000));
        out.append(" \u{b5}s");
    } else if nanos < 1_000_000_000 {
        push_tenths(&mut out, tenths(nanos as u64, 1_000_000));
        out.append(" ms");
    } else {
        push_tenths(&mut out, tenths(nanos as u64, 1_000_000_000));
        out.append(" s");
    }
    assert(out@ =~= duration_text(nanos as int));
    out
}

/// The tenths of a byte size in its unit, for sizes below 2^53 bytes: those
/// of the true quotient, rounded half to even.
pub proof fn theorem_filesize_tenths(bytes: nat)
    requires
        bytes < 0x20_0000_0000_0000,
    ensures
        bytes >= 1024 ==> quotient_tenths(bytes, 1024) == round_half_even(10 * bytes, 1024),
        bytes >= 1024 * 1024 ==> quotient_tenths(bytes, 1024 * 1024) == round_half_even(
            10 * bytes,
            1024 * 1024,
        ),
        bytes >= 1024 * 1024 * 1024 ==> quotient_tenths(bytes, 1024 * 1024 * 1024)
            == round_half_even(10 * bytes, 1024 * 1024 * 1024),
{
    assert(power_of_two(1024)) by {
        reveal_with_fuel(power_of_two, 11);
    }
    assert(power_of_two(1024 * 1024)) by {
        reveal_with_fuel(power_of_two, 21);
    }
    assert(power_of_two(1024 * 1024 * 1024)) by {
        reveal_with_fuel(power_of_two, 31);
    }
    if bytes >= 1024 {
        theorem_binary_unit_tenths(bytes, 1024);
    }
    if bytes >= 1024 * 1024 {
        theorem_binary_unit_tenths(bytes, 1024 * 1024);
    }
    if bytes >= 1024 * 1024 * 1024 {
        theorem_binary_unit_tenths(bytes, 1024 * 1024 * 1024);
    }
}

/// The tenths of a duration in its unit, for durations below 2^53
/// nanoseconds: those of the true quotient, rounded down or up.
pub proof fn theorem_duration_tenths(nanos: nat)
    requires
        nanos < 2 * two_pow_52(),
    ensures
        nanos >= 1_000 ==> (10 * nanos) / 1_000 <= quotient_tenths(nanos, 1_000) <= (10 * nanos)
            / 1_000 + 1,
        nanos >= 1_000_000 ==> (10 * nanos) / 1_000_000 <= quotient_tenths(nanos, 1_000_000)
            <= (10 * nanos) / 1_000_000 + 1,
        nanos >= 1_000_000_000 ==> (10 * nanos) / 1_000_000_000 <= quotient_tenths(
            nanos,
            1_000_000_000,
        ) <= (10 * nanos) / 1_000_000_000 + 1,
{
    if nanos >= 1_000 {
        theorem_quotient_tenths_near(nanos, 1_000);
    }
    if nanos >= 1_000_000 {
        theorem_quotient_tenths_near(nanos, 1_000_000);
    }
    if nanos >= 1_000_000_000 {
        theorem_quotient_tenths_near(nanos, 1_000_000_000);
    }
}

/// Below 1024 a byte size is the bare count of bytes, and below 1000 a
/// duration is the bare count of nanoseconds: no decimal point.
pub proof fn lemma_small_magnitudes(n: int)
    ensures
        n < 1024 ==> filesize_text(n) == decimal_text(n) + seq![' ', 'B'],
        n < 1000 ==> duration_text(n) == decimal_text(n) + seq![' ', 'n', 's'],
{
}

} // verus!
