//! Fixed-point scalars.
//!
//! Every quantity of the simulation (a coordinate, a velocity, a stiffness, a
//! time step) is an `i64` that counts millionths: `ONE` stands for 1.0. A sum
//! or product that leaves the range of `i64` saturates at the nearest bound,
//! so every operation is total and gives the same bits on every machine.

use vstd::prelude::*;

verus! {

/// The scalar that stands for 1.0.
pub const ONE: i64 = 1_000_000;

/// The nearest value to `x` that an `i64` can hold.
pub open spec fn sat(x: int) -> int {
    if x < i64::MIN as int {
        i64::MIN as int
    } else if x > i64::MAX as int {
        i64::MAX as int
    } else {
        x
    }
}

/// The quotient `a / b`, rounded toward zero (`b` positive).
pub open spec fn div_trunc(a: int, b: int) -> int {
    if a >= 0 {
        a / b
    } else {
        -((-a) / b)
    }
}

/// The quotient `a / b`, rounded away from zero (`b` positive).
pub open spec fn div_away(a: int, b: int) -> int {
    if a >= 0 {
        (a + b - 1) / b
    } else {
        -((-a + b - 1) / b)
    }
}

/// Saturating sum.
pub open spec fn sat_add(a: i64, b: i64) -> i64 {
    sat(a + b) as i64
}

/// Saturating difference.
pub open spec fn sat_sub(a: i64, b: i64) -> i64 {
    sat(a - b) as i64
}

/// Saturating negation.
pub open spec fn sat_neg(a: i64) -> i64 {
    sat(-a) as i64
}

/// Saturating fixed-point product: `a * b / ONE`, rounded toward zero.
pub open spec fn sat_mul(a: i64, b: i64) -> i64 {
    sat(div_trunc(a * b, ONE as int)) as i64
}

/// Saturating fixed-point quotient: `a * ONE / b`, rounded toward zero.
pub open spec fn sat_div(a: i64, b: i64) -> i64 {
    sat(div_trunc(a * ONE, b as int)) as i64
}

/// `a * b / c`, rounded toward zero and saturated.
pub open spec fn sat_mul_div(a: i64, b: i64, c: u64) -> i64 {
    sat(div_trunc(a * b, c as int)) as i64
}

/// `a * b / c`, rounded away from zero and saturated.
pub open spec fn sat_mul_div_away(a: i64, b: i64, c: u64) -> i64 {
    sat(div_away(a * b, c as int)) as i64
}

/// `n` times the scalar `a`, saturated.
pub open spec fn sat_times(n: u32, a: i64) -> i64 {
    sat(n * a) as i64
}

/// The integer square root: the largest `r` with `r * r <= n`.
pub open spec fn floor_sqrt(n: nat) -> nat
    decreases n,
{
    if n == 0 {
        0
    } else {
        let r = floor_sqrt((n - 1) as nat);
        if (r + 1) * (r + 1) <= n {
            r + 1
        } else {
            r
        }
    }
}

/// The least `r` with `n <= r * r`.
pub open spec fn ceil_sqrt(n: nat) -> nat {
    let r = floor_sqrt(n);
    if r * r == n {
        r
    } else {
        r + 1
    }
}

/// `floor_sqrt(n)` lies between the two squares that enclose `n`.
pub proof fn lemma_floor_sqrt_bounds(n: nat)
    ensures
        floor_sqrt(n) * floor_sqrt(n) <= n,
        n < (floor_sqrt(n) + 1) * (floor_sqrt(n) + 1),
    decreases n,
{
    let s = floor_sqrt(n);
    if n == 0 {
        assert(s == 0);
        assert(s * s <= n && n < (s + 1) * (s + 1)) by (nonlinear_arith)
            requires
                s == 0,
                n == 0,
        ;
    } else {
        lemma_floor_sqrt_bounds((n - 1) as nat);
        let r = floor_sqrt((n - 1) as nat);
        if (r + 1) * (r + 1) <= n {
            assert(s == r + 1);
            assert(s * s <= n && n < (s + 1) * (s + 1)) by (nonlinear_arith)
                requires
                    s == r + 1,
                    (r + 1) * (r + 1) <= n,
                    n - 1 < (r + 1) * (r + 1),
            ;
        } else {
            assert(s == r);
            assert(s * s <= n && n < (s + 1) * (s + 1)) by (nonlinear_arith)
                requires
                    s == r,
                    r * r <= n - 1,
                    !((r + 1) * (r + 1) <= n),
            ;
        }
    }
}

/// Squaring is strictly monotonic on the naturals.
pub proof fn lemma_square_monotonic(a: nat, b: nat)
    ensures
        a <= b <==> a * a <= b * b,
        a < b <==> a * a < b * b,
{
    if a < b {
        assert(a * a < b * b) by (nonlinear_arith)
            requires
                a < b,
        ;
    } else if a == b {
    } else {
        assert(b * b < a * a) by (nonlinear_arith)
            requires
                b < a,
        ;
    }
}

/// Only one number lies between the two squares that enclose `n`.
pub proof fn lemma_floor_sqrt_unique(n: nat, r: nat)
    requires
        r * r <= n,
        n < (r + 1) * (r + 1),
    ensures
        r == floor_sqrt(n),
{
    let s = floor_sqrt(n);
    lemma_floor_sqrt_bounds(n);
    lemma_square_monotonic(r, s + 1);
    lemma_square_monotonic(s, r + 1);
}

/// `ceil_sqrt(n)` is the least number whose square reaches `n`.
pub proof fn lemma_ceil_sqrt_bounds(n: nat)
    ensures
        n <= ceil_sqrt(n) * ceil_sqrt(n),
        n > 0 ==> ceil_sqrt(n) > 0 && (ceil_sqrt(n) - 1) * (ceil_sqrt(n) - 1) < n,
        floor_sqrt(n) <= ceil_sqrt(n) <= floor_sqrt(n) + 1,
{
    lemma_floor_sqrt_bounds(n);
    let r = floor_sqrt(n);
    let c = ceil_sqrt(n);
    if r * r == n {
        assert(c == r);
        assert(n > 0 ==> c > 0 && (c - 1) * (c - 1) < n) by (nonlinear_arith)
            requires
                c * c == n,
                c >= 0,
        ;
    } else {
        assert(c == r + 1);
        assert(n <= c * c && (c - 1) * (c - 1) < n) by (nonlinear_arith)
            requires
                c == r + 1,
                r * r <= n,
                r * r != n,
                n < (r + 1) * (r + 1),
        ;
    }
}

/// A quotient rounded toward zero keeps the sign of the dividend and, times
/// the divisor, falls short of it in magnitude by less than the divisor.
pub proof fn lemma_div_trunc_bound(a: int, b: int)
    requires
        b > 0,
    ensures
        a >= 0 ==> 0 <= div_trunc(a, b) && div_trunc(a, b) * b <= a < (div_trunc(a, b) + 1) * b,
        a <= 0 ==> div_trunc(a, b) <= 0 && (div_trunc(a, b) - 1) * b < a <= div_trunc(a, b) * b,
{
    if a >= 0 {
        let q = a / b;
        assert(0 <= q && q * b <= a < (q + 1) * b) by (nonlinear_arith)
            requires
                b > 0,
                a >= 0,
                q == a / b,
        ;
        if a == 0 {
            assert(q == 0 && (q - 1) * b < 0) by (nonlinear_arith)
                requires
                    0 <= q,
                    q * b <= 0,
                    b > 0,
            ;
        }
    } else {
        let q = (-a) / b;
        assert(0 <= q && q * b <= -a < (q + 1) * b) by (nonlinear_arith)
            requires
                b > 0,
                -a >= 0,
                q == (-a) / b,
        ;
        assert((-q) * b == -(q * b) && (-q - 1) * b == -((q + 1) * b)) by (nonlinear_arith);
    }
}

/// A quotient rounded away from zero keeps the sign of the dividend and,
/// times the divisor, reaches it in magnitude without going a whole divisor
/// beyond.
pub proof fn lemma_div_away_bound(a: int, b: int)
    requires
        b > 0,
    ensures
        a >= 0 ==> 0 <= div_away(a, b) && a <= div_away(a, b) * b < a + b,
        a <= 0 ==> div_away(a, b) <= 0 && a - b < div_away(a, b) * b <= a,
{
    if a >= 0 {
        let q = (a + b - 1) / b;
        assert(0 <= q && a <= q * b < a + b) by (nonlinear_arith)
            requires
                b > 0,
                a >= 0,
                q == (a + b - 1) / b,
        ;
        if a == 0 {
            assert(q == 0 && q * b == 0) by (nonlinear_arith)
                requires
                    0 <= q,
                    q * b < b,
                    b > 0,
            ;
        }
    } else {
        let q = (-a + b - 1) / b;
        assert(0 <= q && -a <= q * b < -a + b) by (nonlinear_arith)
            requires
                b > 0,
                -a >= 0,
                q == (-a + b - 1) / b,
        ;
        assert((-q) * b == -(q * b)) by (nonlinear_arith);
    }
}

/// Clamps a wide intermediate result into the range of a scalar.
pub fn saturate(x: i128) -> (r: i64)
    ensures
        r as int == sat(x as int),
{
    if x < i64::MIN as i128 {
        i64::MIN
    } else if x > i64::MAX as i128 {
        i64::MAX
    } else {
        x as i64
    }
}

/// The product of two scalars fits comfortably in an `i128`.
pub proof fn lemma_product_range(a: i64, b: i64)
    ensures
        -0x4000_0000_0000_0000_0000_0000_0000_0000 <= a * b
            <= 0x4000_0000_0000_0000_0000_0000_0000_0000,
{
    assert(-0x4000_0000_0000_0000_0000_0000_0000_0000 <= a * b
        <= 0x4000_0000_0000_0000_0000_0000_0000_0000) by (nonlinear_arith)
        requires
            -0x8000_0000_0000_0000 <= a <= 0x7fff_ffff_ffff_ffff,
            -0x8000_0000_0000_0000 <= b <= 0x7fff_ffff_ffff_ffff,
    ;
}

/// Saturating sum of two scalars.
pub fn fx_add(a: i64, b: i64) -> (r: i64)
    ensures
        r == sat_add(a, b),
{
    saturate(a as i128 + b as i128)
}

/// Saturating difference of two scalars.
pub fn fx_sub(a: i64, b: i64) -> (r: i64)
    ensures
        r == sat_sub(a, b),
{
    saturate(a as i128 - b as i128)
}

/// Saturating negation of a scalar.
pub fn fx_neg(a: i64) -> (r: i64)
    ensures
        r == sat_neg(a),
{
    saturate(-(a as i128))
}

/// Fixed-point product, rounded toward zero and saturated.
pub fn fx_mul(a: i64, b: i64) -> (r: i64)
    ensures
        r == sat_mul(a, b),
{
    proof {
        lemma_product_range(a, b);
    }
    let wide: i128 = (a as i128) * (b as i128);
    saturate(wide / (ONE as i128))
}

/// Fixed-point quotient by a positive scalar, rounded toward zero and
/// saturated.
pub fn fx_div(a: i64, b: i64) -> (r: i64)
    requires
        b > 0,
    ensures
        r == sat_div(a, b),
{
    proof {
        lemma_product_range(a, ONE);
    }
    let wide: i128 = (a as i128) * (ONE as i128);
    saturate(wide / (b as i128))
}

/// `a * b / c` for a positive `c`, rounded toward zero and saturated.
pub fn fx_mul_div(a: i64, b: i64, c: u64) -> (r: i64)
    requires
        c > 0,
    ensures
        r == sat_mul_div(a, b, c),
{
    proof {
        lemma_product_range(a, b);
    }
    let wide: i128 = (a as i128) * (b as i128);
    saturate(wide / (c as i128))
}

/// `a * b / c` for a positive `c`, rounded away from zero and saturated.
pub fn fx_mul_div_away(a: i64, b: i64, c: u64) -> (r: i64)
    requires
        c > 0,
    ensures
        r == sat_mul_div_away(a, b, c),
{
    proof {
        lemma_product_range(a, b);
    }
    let wide: i128 = (a as i128) * (b as i128);
    let d: i128 = c as i128;
    if wide >= 0 {
        saturate((wide + (d - 1)) / d)
    } else {
        saturate((wide - (d - 1)) / d)
    }
}

/// `n` times the scalar `a`, saturated.
pub fn fx_times(n: u32, a: i64) -> (r: i64)
    ensures
        r == sat_times(n, a),
{
    proof {
        assert(-0x1_0000_0000 * 0x8000_0000_0000_0000 <= n * a <= 0x1_0000_0000
            * 0x8000_0000_0000_0000) by (nonlinear_arith)
            requires
                0 <= n <= 0xffff_ffff,
                -0x8000_0000_0000_0000 <= a <= 0x7fff_ffff_ffff_ffff,
        ;
    }
    saturate((n as i128) * (a as i128))
}

/// The integer square root of `n`, by bisection.
pub fn isqrt(n: u128) -> (r: u64)
    ensures
        r as nat == floor_sqrt(n as nat),
{
    let mut lo: u128 = 0;
    let mut hi: u128 = 0x1_0000_0000_0000_0000;
    assert(0x1_0000_0000_0000_0000int * 0x1_0000_0000_0000_0000int
        == 0x1_0000_0000_0000_0000_0000_0000_0000_0000int) by (nonlinear_arith);
    while hi - lo > 1
        invariant
            lo < hi <= 0x1_0000_0000_0000_0000,
            lo * lo <= n,
            n < hi * hi,
        decreases hi - lo,
    {
        let mid: u128 = lo + (hi - lo) / 2;
        assert(mid * mid <= 0xffff_ffff_ffff_ffff * 0xffff_ffff_ffff_ffff) by (nonlinear_arith)
            requires
                0 <= mid <= 0xffff_ffff_ffff_ffff,
        ;
        assert(0xffff_ffff_ffff_ffffint * 0xffff_ffff_ffff_ffffint
            < 0x1_0000_0000_0000_0000_0000_0000_0000_0000int) by (nonlinear_arith);
        if mid * mid <= n {
            lo = mid;
        } else {
            hi = mid;
        }
    }
    proof {
        lemma_floor_sqrt_unique(n as nat, lo as nat);
    }
    lo as u64
}

/// The least `r` whose square reaches `n`.
pub fn isqrt_ceil(n: u128) -> (r: u128)
    ensures
        r as nat == ceil_sqrt(n as nat),
        r <= 0x1_0000_0000_0000_0000,
{
    let root: u64 = isqrt(n);
    proof {
        lemma_floor_sqrt_bounds(n as nat);
        assert(root * root <= n);
    }
    let wide: u128 = root as u128;
    if wide * wide == n {
        wide
    } else {
        wide + 1
    }
}

} // verus!
