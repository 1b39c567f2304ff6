//! Quotients to one decimal place, as binary64 arithmetic gives them.
//!
//! A magnitude is shown as the quotient of a count by a unit, with one
//! decimal place. The quotient is the one that floating-point division
//! yields: the count is taken to the nearest binary64 number, the division
//! rounds correctly, and the result is rounded to tenths, ties to even. All
//! of it is computed here in integers.

use vstd::prelude::*;

verus! {

/// The integer nearest to `num / den`; of two equally near, the even one.
pub open spec fn round_half_even(num: nat, den: nat) -> nat
    recommends
        den > 0,
{
    let q = num / den;
    let r = num % den;
    if 2 * r > den || (2 * r == den && q % 2 == 1) {
        q + 1
    } else {
        q
    }
}

/// Two to the power 52: the least 53-bit number.
pub open spec fn two_pow_52() -> nat {
    0x10_0000_0000_0000
}

/// The spacing of the binary64 numbers around `n`: the least power of two
/// `u` with `n < 2^53 * u`.
pub open spec fn binary64_spacing(n: nat) -> nat
    decreases n,
{
    if n < 2 * two_pow_52() {
        1
    } else {
        2 * binary64_spacing(n / 2)
    }
}

/// The binary64 number nearest to the integer `n`: `n` rounded to 53
/// significant bits, ties to even.
pub open spec fn nearest_binary64(n: nat) -> nat {
    round_half_even(n, binary64_spacing(n)) * binary64_spacing(n)
}

/// The power of two `s` that brings `a / d` into the range of 53-bit
/// mantissas: `2^52 * d <= a * s < 2^53 * d`, for `d <= a < 2^53 * d`.
pub open spec fn mantissa_scale(a: nat, d: nat) -> nat
    decreases
        (if a >= 0x10_0000_0000_0000 * d {
            0
        } else {
            0x10_0000_0000_0000 * d - a
        }),
{
    if a == 0 || a >= 0x10_0000_0000_0000 * d {
        1
    } else {
        2 * mantissa_scale(2 * a, d)
    }
}

/// The quotient `value / unit` in tenths, as binary64 arithmetic gives it: the
/// value is taken to the nearest binary64, divided with correct rounding, and
/// the quotient is rounded to one decimal place, ties to even.
pub open spec fn quotient_tenths(value: nat, unit: nat) -> nat {
    let a = nearest_binary64(value);
    let s = mantissa_scale(a, unit);
    let mantissa = round_half_even(a * s, unit);
    round_half_even(mantissa * 10, s)
}

/// Divides and rounds to the nearest integer, ties to even.
fn round_div(num: u128, den: u128) -> (q: u128)
    requires
        den > 0,
        num / den < u128::MAX,
        den <= u128::MAX / 2,
    ensures
        q == round_half_even(num as nat, den as nat),
{
    let q: u128 = num / den;
    let r: u128 = num % den;
    if 2 * r > den || (2 * r == den && q % 2 == 1) {
        q + 1
    } else {
        q
    }
}

/// The spacing of the binary64 numbers around `n`.
fn spacing(n: u64) -> (u: u64)
    ensures
        u == binary64_spacing(n as nat),
        1 <= u < 4096,
    decreases n,
{
    proof {
        lemma_spacing_bound(n as nat);
    }
    if n < 0x20_0000_0000_0000 {
        1
    } else {
        let half: u64 = spacing(n / 2);
        2 * half
    }
}

/// The spacing around `n` is at most `n / 2^52`, once `n` has 54 bits or more.
proof fn lemma_spacing_bound(n: nat)
    ensures
        binary64_spacing(n) >= 1,
        n >= 2 * two_pow_52() ==> binary64_spacing(n) * two_pow_52() <= n,
    decreases n,
{
    if n >= 2 * two_pow_52() {
        lemma_spacing_bound(n / 2);
    }
}

/// The binary64 number nearest to `n`.
fn nearest(n: u64) -> (a: u128)
    ensures
        a == nearest_binary64(n as nat),
        n < 0x20_0000_0000_0000 ==> a == n,
        n >= 0x20_0000_0000_0000 ==> 0x1f_ffff_ffff_f000 <= a <= 0x1_0000_0000_0000_1000,
{
    let u: u64 = spacing(n);
    let q: u128 = round_div(n as u128, u as u128);
    proof {
        let nn = n as int;
        let uu = u as int;
        let qq = q as int;
        assert(nn == uu * (nn / uu) + nn % uu && 0 <= nn % uu < uu) by (nonlinear_arith)
            requires
                uu > 0,
                nn >= 0,
        ;
        assert(qq == nn / uu || qq == nn / uu + 1);
        assert(nn - uu <= qq * uu <= nn + uu) by (nonlinear_arith)
            requires
                nn == uu * (nn / uu) + nn % uu,
                0 <= nn % uu < uu,
                qq == nn / uu || qq == nn / uu + 1,
        ;
        if n < 0x20_0000_0000_0000 {
            assert(nn / uu == nn && nn % uu == 0) by (nonlinear_arith)
                requires
                    nn == uu * (nn / uu) + nn % uu,
                    0 <= nn % uu < uu,
                    uu == 1,
            ;
            assert(qq * uu == nn) by (nonlinear_arith)
                requires
                    qq == nn,
                    uu == 1,
            ;
        }
    }
    q * (u as u128)
}

/// The power of two that brings `a / d` into the range of 53-bit mantissas.
fn scale(a: u128, d: u128) -> (s: u128)
    requires
        1 <= d <= 0x4000_0000,
        d <= a < 0x20_0000_0000_0000 * d,
    ensures
        s == mantissa_scale(a as nat, d as nat),
        1 <= s < 0x20_0000_0000_0000,
        0x10_0000_0000_0000 * d <= a * s < 0x20_0000_0000_0000 * d,
    decreases 0x20_0000_0000_0000 * d - a,
{
    if a >= 0x10_0000_0000_0000 * d {
        1
    } else {
        let half: u128 = scale(2 * a, d);
        proof {
            let (aa, dd, hh) = (a as int, d as int, half as int);
            assert(aa * (2 * hh) == (2 * aa) * hh) by (nonlinear_arith);
            assert(hh < 0x10_0000_0000_0000) by (nonlinear_arith)
                requires
                    (2 * aa) * hh < 0x20_0000_0000_0000 * dd,
                    1 <= dd <= aa,
                    hh >= 1,
            ;
        }
        2 * half
    }
}

/// The quotient `value / unit` in tenths, as binary64 arithmetic gives it.
/// The unit is at most 2^30 and at most the value; a value of 2^53 or more
/// needs a unit of 4096 or more for the quotient to stay a mantissa's worth.
pub(crate) fn tenths(value: u64, unit: u128) -> (t: u128)
    requires
        1 <= unit <= 0x4000_0000,
        unit <= value,
        value < 0x20_0000_0000_0000 || unit >= 4096,
    ensures
        t == quotient_tenths(value as nat, unit as nat),
{
    let a: u128 = nearest(value);
    let s: u128 = scale(a, unit);
    proof {
        let (aa, ss, dd) = (a as int, s as int, unit as int);
        assert(aa * ss < 0x8_0000_0000_0000_0000_0000) by (nonlinear_arith)
            requires
                aa * ss < 0x20_0000_0000_0000 * dd,
                dd <= 0x4000_0000,
        ;
        assert((aa * ss) / dd <= 0x20_0000_0000_0000) by (nonlinear_arith)
            requires
                0 <= aa * ss < 0x20_0000_0000_0000 * dd,
                dd >= 1,
        ;
    }
    let mantissa: u128 = round_div(a * s, unit);
    round_div(mantissa * 10, s)
}

/// Whether a number is a power of two.
pub open spec fn power_of_two(n: nat) -> bool
    decreases n,
{
    n == 1 || (n > 1 && n % 2 == 0 && power_of_two(n / 2))
}

/// An integer below 2^53 is a binary64 number.
pub proof fn lemma_nearest_binary64_exact(n: nat)
    requires
        n < 0x20_0000_0000_0000,
    ensures
        nearest_binary64(n) == n,
{
    assert(binary64_spacing(n) == 1);
    assert(n / 1 == n && n % 1 == 0);
}

/// The scale of a quotient is a power of two, and brings the quotient into
/// the range of 53-bit mantissas.
pub proof fn lemma_mantissa_scale(a: nat, d: nat)
    requires
        1 <= d <= a < 0x20_0000_0000_0000 * d,
    ensures
        power_of_two(mantissa_scale(a, d)),
        0x10_0000_0000_0000 * d <= a * mantissa_scale(a, d) < 0x20_0000_0000_0000 * d,
    decreases 0x20_0000_0000_0000 * d - a,
{
    if a >= 0x10_0000_0000_0000 * d {
        assert(a * 1 == a);
    } else {
        lemma_mantissa_scale(2 * a, d);
        let half = mantissa_scale(2 * a, d);
        assert(half >= 1) by {
            if half == 0 {
                assert((2 * a) * half == 0) by (nonlinear_arith)
                    requires
                        half == 0,
                ;
            }
        }
        assert(a * (2 * half) == (2 * a) * half) by (nonlinear_arith);
        assert((2 * half) / 2 == half && (2 * half) % 2 == 0);
    }
}

/// Of two powers of two, the greater is at least twice the lesser.
pub proof fn lemma_powers_of_two_apart(x: nat, y: nat)
    requires
        power_of_two(x),
        power_of_two(y),
        x < y,
    ensures
        2 * x <= y,
    decreases x,
{
    if x > 1 {
        lemma_powers_of_two_apart(x / 2, y / 2);
    }
}

/// Of two powers of two, the lesser divides the greater.
pub proof fn lemma_power_of_two_divides(x: nat, y: nat)
    requires
        power_of_two(x),
        power_of_two(y),
        x <= y,
    ensures
        y == (y / x) * x,
        y / x >= 1,
    decreases y,
{
    if x == y {
        assert(y / x == 1) by (nonlinear_arith)
            requires
                x == y,
                x > 0,
        ;
    } else {
        lemma_powers_of_two_apart(x, y);
        lemma_power_of_two_divides(x, y / 2);
        let k = (y / 2) / x;
        assert(y == (2 * k) * x) by (nonlinear_arith)
            requires
                y / 2 == k * x,
                y == 2 * (y / 2),
        ;
        vstd::arithmetic::div_mod::lemma_div_by_multiple((2 * k) as int, x as int);
    }
}

/// Rounding a quotient does not depend on a factor that numerator and
/// denominator share.
pub proof fn lemma_round_half_even_scaled(k: nat, num: nat, den: nat)
    requires
        k > 0,
        den > 0,
    ensures
        round_half_even(k * num, k * den) == round_half_even(num, den),
{
    vstd::arithmetic::div_mod::lemma_div_multiples_vanish_quotient(
        k as int,
        num as int,
        den as int,
    );
    vstd::arithmetic::div_mod::lemma_truncate_middle(num as int, k as int, den as int);
    let r = num % den;
    assert(2 * (k * r) > k * den <==> 2 * r > den) by (nonlinear_arith)
        requires
            k > 0,
    ;
    assert(2 * (k * r) == k * den <==> 2 * r == den) by (nonlinear_arith)
        requires
            k > 0,
    ;
}

/// Division by a power of two is exact in binary64: below 2^53 the tenths of
/// the quotient are those of the true quotient, rounded half to even.
pub proof fn theorem_binary_unit_tenths(value: nat, unit: nat)
    requires
        power_of_two(unit),
        unit <= value < 0x20_0000_0000_0000,
    ensures
        quotient_tenths(value, unit) == round_half_even(10 * value, unit),
{
    lemma_nearest_binary64_exact(value);
    assert(value < 0x20_0000_0000_0000 * unit) by (nonlinear_arith)
        requires
            value < 0x20_0000_0000_0000,
            unit >= 1,
    ;
    lemma_mantissa_scale(value, unit);
    let s = mantissa_scale(value, unit);
    if s < unit {
        lemma_powers_of_two_apart(s, unit);
        assert(value * s < 0x10_0000_0000_0000 * unit) by (nonlinear_arith)
            requires
                value < 0x20_0000_0000_0000,
                2 * s <= unit,
                s >= 1,
        ;
    }
    lemma_power_of_two_divides(unit, s);
    let k = s / unit;
    assert(value * s == (value * k) * unit) by (nonlinear_arith)
        requires
            s == k * unit,
    ;
    vstd::arithmetic::div_mod::lemma_div_by_multiple((value * k) as int, unit as int);
    vstd::arithmetic::div_mod::lemma_mod_multiples_basic((value * k) as int, unit as int);
    assert(round_half_even(value * s, unit) == value * k);
    assert((value * k) * 10 == k * (10 * value)) by (nonlinear_arith);
    assert(s == k * unit);
    lemma_round_half_even_scaled(k, 10 * value, unit);
}

/// Rounding moves a quotient by half a unit at most.
pub proof fn lemma_round_half_even_near(num: nat, den: nat)
    requires
        den > 0,
    ensures
        2 * num - den <= 2 * (round_half_even(num, den) * den) <= 2 * num + den,
{
    let q = num / den;
    let r = num % den;
    vstd::arithmetic::div_mod::lemma_fundamental_div_mod(num as int, den as int);
    assert(0 <= r < den);
    assert((q + 1) * den == q * den + den) by (nonlinear_arith);
    assert(den * q == q * den) by (nonlinear_arith);
}

/// The tenths that binary64 arithmetic gives for a quotient are those of the
/// true quotient, rounded down or up: for values below 2^53 and units of 32
/// or more, the two roundings on the way never add up to a whole tenth.
pub proof fn theorem_quotient_tenths_near(value: nat, unit: nat)
    requires
        32 <= unit <= value < 0x20_0000_0000_0000,
    ensures
        (10 * value) / unit <= quotient_tenths(value, unit) <= (10 * value) / unit + 1,
{
    lemma_nearest_binary64_exact(value);
    assert(value < 0x20_0000_0000_0000 * unit) by (nonlinear_arith)
        requires
            value < 0x20_0000_0000_0000,
            unit >= 1,
    ;
    lemma_mantissa_scale(value, unit);
    let s = mantissa_scale(value, unit);
    let m = round_half_even(value * s, unit);
    let t = round_half_even(m * 10, s);
    let k = (10 * value) / unit;
    assert(s >= 16) by (nonlinear_arith)
        requires
            0x10_0000_0000_0000 * unit <= value * s,
            value < 0x20_0000_0000_0000,
            unit >= 32,
            s >= 0,
    ;
    lemma_round_half_even_near(value * s, unit);
    lemma_round_half_even_near(m * 10, s);
    vstd::arithmetic::div_mod::lemma_fundamental_div_mod((10 * value) as int, unit as int);
    let rem = (10 * value) % unit;
    assert(0 <= rem < unit);
    assert(10 * value == unit * k + rem);
    let x = value * s;
    let y = m * unit;
    let z = t * s;
    let w = s * unit;
    assert(2 * x - unit <= 2 * y <= 2 * x + unit);
    assert(2 * (m * 10) - s <= 2 * z <= 2 * (m * 10) + s);
    assert(10 * x == k * w + rem * s) by (nonlinear_arith)
        requires
            10 * value == unit * k + rem,
            x == value * s,
            w == s * unit,
    ;
    assert(0 <= rem * s <= w - s) by (nonlinear_arith)
        requires
            0 <= rem < unit,
            w == s * unit,
            s >= 1,
    ;
    assert((m * 10) * unit == 10 * y) by (nonlinear_arith)
        requires
            y == m * unit,
    ;
    assert(z * unit == t * w) by (nonlinear_arith)
        requires
            z == t * s,
            w == s * unit,
    ;
    let p = (m * 10) * unit;
    assert(2 * p - w <= 2 * (t * w) <= 2 * p + w) by (nonlinear_arith)
        requires
            2 * (m * 10) - s <= 2 * z <= 2 * (m * 10) + s,
            p == (m * 10) * unit,
            z * unit == t * w,
            w == s * unit,
            unit >= 1,
    ;
    assert(w >= 16 * unit) by (nonlinear_arith)
        requires
            w == s * unit,
            s >= 16,
            unit >= 1,
    ;
    if t < k {
        assert(t * w <= k * w - w) by (nonlinear_arith)
            requires
                t <= k - 1,
                w >= 0,
        ;
    }
    if t > k + 1 {
        assert(t * w >= k * w + 2 * w) by (nonlinear_arith)
            requires
                t >= k + 2,
                w >= 0,
        ;
    }
}

} // verus!
