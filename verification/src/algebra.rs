//! Facts about integers that the bounds of the kernel rest on.

use vstd::prelude::*;

verus! {

/// Where `t * up` is no larger in magnitude than `e * m`, the square of
/// `t * up` is no larger than that of `e * m`.
pub proof fn lemma_square_of_smaller(t: int, up: int, e: int, m: int)
    requires
        up > 0,
        m >= 0,
        e >= 0 ==> 0 <= t * up <= e * m,
        e <= 0 ==> e * m <= t * up <= 0,
    ensures
        (t * t) * (up * up) <= (e * e) * (m * m),
{
    let x = t * up;
    let y = e * m;
    assert(x * x <= y * y) by (nonlinear_arith)
        requires
            (0 <= x <= y) || (y <= x <= 0),
    ;
    assert(x * x == (t * t) * (up * up)) by (nonlinear_arith)
        requires
            x == t * up,
    ;
    assert(y * y == (e * e) * (m * m)) by (nonlinear_arith)
        requires
            y == e * m,
    ;
}

/// Where `t * len` is at least as large in magnitude as `e * r`, the square
/// of `t * len` is at least that of `e * r`.
pub proof fn lemma_square_of_larger(t: int, len: int, e: int, r: int)
    requires
        len > 0,
        r >= 0,
        e >= 0 ==> 0 <= e * r <= t * len,
        e <= 0 ==> t * len <= e * r <= 0,
    ensures
        (e * e) * (r * r) <= (t * t) * (len * len),
{
    let x = t * len;
    let y = e * r;
    assert(y * y <= x * x) by (nonlinear_arith)
        requires
            (0 <= y <= x) || (x <= y <= 0),
    ;
    assert(x * x == (t * t) * (len * len)) by (nonlinear_arith)
        requires
            x == t * len,
    ;
    assert(y * y == (e * e) * (r * r)) by (nonlinear_arith)
        requires
            y == e * r,
    ;
}

/// A vector whose squared length `tt`, times `uu`, is at most `ee * mm`
/// with `ee` at most `uu`, has a squared length of at most `mm`.
pub proof fn lemma_shrunk_length(tt: int, ee: int, mm: int, uu: int)
    requires
        uu > 0,
        mm >= 0,
        tt >= 0,
        ee <= uu,
        tt * uu <= ee * mm,
    ensures
        tt <= mm,
{
    assert(ee * mm <= uu * mm) by (nonlinear_arith)
        requires
            ee <= uu,
            mm >= 0,
    ;
    assert(tt <= mm) by (nonlinear_arith)
        requires
            tt * uu <= uu * mm,
            uu > 0,
    ;
}

/// A vector whose squared length `tt`, times `ll`, is at least `ee * rr`
/// with `ee` at least `ll`, has a squared length of at least `rr`.
pub proof fn lemma_grown_length(tt: int, ee: int, rr: int, ll: int)
    requires
        ll > 0,
        rr >= 0,
        ee >= ll,
        ee * rr <= tt * ll,
    ensures
        rr <= tt,
{
    assert(ll * rr <= ee * rr) by (nonlinear_arith)
        requires
            ll <= ee,
            rr >= 0,
    ;
    assert(rr <= tt) by (nonlinear_arith)
        requires
            ll * rr <= tt * ll,
            ll > 0,
    ;
}

/// Distributes a common factor over a sum of three products.
pub proof fn lemma_sum_times(a: int, b: int, c: int, k: int)
    ensures
        (a + b + c) * k == a * k + b * k + c * k,
{
    assert((a + b + c) * k == a * k + b * k + c * k) by (nonlinear_arith);
}

/// The square of a sum of three numbers is at most three times the sum of
/// their squares.
pub proof fn lemma_sum_squared(x: int, y: int, z: int)
    ensures
        (x + y + z) * (x + y + z) <= 3 * (x * x + y * y + z * z),
{
    let a = x - y;
    let b = y - z;
    let c = x - z;
    assert(a * a >= 0 && b * b >= 0 && c * c >= 0) by (nonlinear_arith);
    assert(3 * (x * x + y * y + z * z) - (x + y + z) * (x + y + z) == a * a + b * b + c * c)
        by (nonlinear_arith)
        requires
            a == x - y,
            b == y - z,
            c == x - z,
    ;
}

/// Of two numbers that are not negative, the one with the smaller square is
/// the smaller.
pub proof fn lemma_smaller_square(a: int, b: int)
    requires
        0 <= a,
        0 <= b,
        a * a < b * b,
    ensures
        a < b,
{
    if a >= b {
        assert(a * a >= b * b) by (nonlinear_arith)
            requires
                a >= b,
                b >= 0,
        ;
    }
}

/// Where one number exceeds another in magnitude, its square exceeds the
/// square of the other.
pub proof fn lemma_larger_square(a: int, b: int)
    requires
        0 <= a < b,
    ensures
        a * a < b * b,
{
    assert(a * a < b * b) by (nonlinear_arith)
        requires
            0 <= a < b,
    ;
}

/// A vector that, with each component lengthened by one, is longer than `r`,
/// is itself at least `r - 2` long.
pub proof fn lemma_shortened_by_one(x: int, y: int, z: int, r: int)
    requires
        x >= 0,
        y >= 0,
        z >= 0,
        r >= 2,
        (x + 1) * (x + 1) + (y + 1) * (y + 1) + (z + 1) * (z + 1) > r * r,
    ensures
        x * x + y * y + z * z >= (r - 2) * (r - 2),
{
    let t = x * x + y * y + z * z;
    let a = x + y + z;
    let w = r - 2;
    assert((x + 1) * (x + 1) + (y + 1) * (y + 1) + (z + 1) * (z + 1) == t + 2 * a + 3)
        by (nonlinear_arith)
        requires
            t == x * x + y * y + z * z,
            a == x + y + z,
    ;
    if t < w * w {
        lemma_sum_squared(x, y, z);
        assert(a * a < (2 * w) * (2 * w)) by (nonlinear_arith)
            requires
                a * a <= 3 * t,
                t < w * w,
        ;
        lemma_smaller_square(a, 2 * w);
        assert(w * w + 4 * w + 3 == r * r - 1) by (nonlinear_arith)
            requires
                w == r - 2,
        ;
    }
}

/// A vector that, with each component shortened by one, is shorter than
/// `n / p`, is itself shorter than `n / p + 2`. The lengths are given by
/// their squares: `yy` for the shortened vector and `tt` for the vector.
pub proof fn lemma_lengthened_by_one(
    x: int,
    y: int,
    z: int,
    u: int,
    v: int,
    w: int,
    p: int,
    n: int,
)
    requires
        0 <= u <= x <= u + 1,
        0 <= v <= y <= v + 1,
        0 <= w <= z <= w + 1,
        p > 0,
        n >= 0,
        (u * u + v * v + w * w) * (p * p) < n * n,
    ensures
        (x * x + y * y + z * z) * (p * p) < (n + 2 * p) * (n + 2 * p),
{
    let yy = u * u + v * v + w * w;
    let b = u + v + w;
    let tt = x * x + y * y + z * z;
    assert(x * x <= (u + 1) * (u + 1)) by (nonlinear_arith)
        requires
            0 <= x <= u + 1,
    ;
    assert(y * y <= (v + 1) * (v + 1)) by (nonlinear_arith)
        requires
            0 <= y <= v + 1,
    ;
    assert(z * z <= (w + 1) * (w + 1)) by (nonlinear_arith)
        requires
            0 <= z <= w + 1,
    ;
    assert((u + 1) * (u + 1) + (v + 1) * (v + 1) + (w + 1) * (w + 1) == yy + 2 * b + 3)
        by (nonlinear_arith)
        requires
            yy == u * u + v * v + w * w,
            b == u + v + w,
    ;
    assert(tt <= yy + 2 * b + 3);
    lemma_sum_squared(u, v, w);
    let bp = b * p;
    let pp = p * p;
    assert(pp > 0) by (nonlinear_arith)
        requires
            pp == p * p,
            p > 0,
    ;
    assert(bp * bp == (b * b) * pp) by (nonlinear_arith)
        requires
            bp == b * p,
            pp == p * p,
    ;
    assert((b * b) * pp <= (3 * yy) * pp) by (nonlinear_arith)
        requires
            b * b <= 3 * yy,
            pp > 0,
    ;
    assert((3 * yy) * pp == 3 * (yy * pp)) by (nonlinear_arith);
    assert(bp * bp < (2 * n) * (2 * n)) by (nonlinear_arith)
        requires
            bp * bp <= 3 * (yy * pp),
            yy * pp < n * n,
    ;
    assert(bp >= 0) by (nonlinear_arith)
        requires
            bp == b * p,
            b >= 0,
            p > 0,
    ;
    lemma_smaller_square(bp, 2 * n);
    assert(tt * pp <= (yy + 2 * b + 3) * pp) by (nonlinear_arith)
        requires
            tt <= yy + 2 * b + 3,
            pp > 0,
    ;
    assert((yy + 2 * b + 3) * pp == yy * pp + 2 * (bp * p) + 3 * pp) by (nonlinear_arith)
        requires
            bp == b * p,
            pp == p * p,
    ;
    assert(bp * p < (2 * n) * p) by (nonlinear_arith)
        requires
            bp < 2 * n,
            p > 0,
    ;
    assert((n + 2 * p) * (n + 2 * p) == n * n + 2 * ((2 * n) * p) + 4 * pp) by (nonlinear_arith)
        requires
            pp == p * p,
    ;
}

} // verus!
