//! Integer helpers: rounding division and product bounds.
use vstd::prelude::*;

verus! {

/// The exact rational number `num / den`.
#[derive(Clone, Copy, Debug, PartialEq, Eq, Structural)]
pub struct Ratio {
    pub num: i128,
    pub den: i128,
}

/// `(n, d)` with the sign moved so that the denominator is not negative.
pub open spec fn signed(n: int, d: int) -> (int, int) {
    if d < 0 {
        (-n, -d)
    } else {
        (n, d)
    }
}

/// `a / b` rounded to the nearest integer, halves away from zero.
pub open spec fn round_div(a: int, b: int) -> int
    recommends
        b > 0,
{
    if a >= 0 {
        (2 * a + b) / (2 * b)
    } else {
        -((-2 * a + b) / (2 * b))
    }
}

/// `|a * b| <= z` whenever `|a| <= x`, `|b| <= y` and `x * y <= z`.
pub proof fn lemma_mul_abs_le(a: int, b: int, x: int, y: int, z: int)
    requires
        -x <= a <= x,
        -y <= b <= y,
        x * y <= z,
    ensures
        -z <= a * b <= z,
{
    assert(-(x * y) <= a * b <= x * y) by (nonlinear_arith)
        requires
            -x <= a <= x,
            -y <= b <= y,
    ;
}

/// Rounding a fixed-point value of magnitude at most `m * 1024` gives an
/// integer of magnitude at most `m`.
pub proof fn lemma_round_fixed_bound(a: int, m: int)
    requires
        m >= 0,
        -1024 * m <= a <= 1024 * m,
    ensures
        -m <= round_div(a, 1024) <= m,
{
    if a >= 0 {
        let q = (2 * a + 1024) / 2048;
        assert(q <= m) by (nonlinear_arith)
            requires
                q == (2 * a + 1024) / 2048,
                0 <= a <= 1024 * m,
        ;
        assert(q >= 0) by (nonlinear_arith)
            requires
                q == (2 * a + 1024) / 2048,
                0 <= a,
        ;
    } else {
        let q = (-2 * a + 1024) / 2048;
        assert(0 <= q <= m) by (nonlinear_arith)
            requires
                q == (-2 * a + 1024) / 2048,
                0 <= -a <= 1024 * m,
        ;
    }
}

/// Dividing by a positive integer does not increase the magnitude beyond
/// `|a|`: `|round_div(a, b)| <= |a|`.
pub proof fn lemma_round_div_le(a: int, b: int)
    requires
        b >= 1,
    ensures
        a >= 0 ==> 0 <= round_div(a, b) <= a,
        a < 0 ==> a <= round_div(a, b) <= 0,
{
    let x = if a >= 0 { a } else { -a };
    let n = 2 * x + b;
    let d = 2 * b;
    vstd::arithmetic::div_mod::lemma_fundamental_div_mod(n, d);
    vstd::arithmetic::div_mod::lemma_mod_pos_bound(n, d);
    vstd::arithmetic::div_mod::lemma_div_pos_is_pos(n, d);
    let q = n / d;
    assert(d * q <= n);
    assert(n < d * (x + 1)) by (nonlinear_arith)
        requires
            n == 2 * x + b,
            d == 2 * b,
            x >= 0,
            b >= 1,
    ;
    assert(q <= x) by (nonlinear_arith)
        requires
            d * q < d * (x + 1),
            d >= 2,
    ;
}

/// Executable `round_div` on values whose doubled magnitude fits.
pub fn round_div_i128(a: i128, b: i128) -> (r: i128)
    requires
        b > 0,
        -0x1000_0000_0000_0000_0000_0000_0000_0000 < a < 0x1000_0000_0000_0000_0000_0000_0000_0000,
        b < 0x1000_0000_0000_0000_0000_0000_0000_0000,
    ensures
        r == round_div(a as int, b as int),
{
    if a >= 0 {
        (2 * a + b) / (2 * b)
    } else {
        let m: i128 = 0 - a;
        0 - (2 * m + b) / (2 * b)
    }
}

} // verus!
