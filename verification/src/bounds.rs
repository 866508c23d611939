//! The bounds that the stretch limit and the collision guarantee, and their
//! proofs.

use crate::algebra::{
    lemma_grown_length, lemma_larger_square, lemma_lengthened_by_one, lemma_shortened_by_one,
    lemma_shrunk_length, lemma_square_of_larger, lemma_square_of_smaller, lemma_sum_times,
};
use crate::config::Sphere;
use crate::kernel::{spec_clamp_all, spec_clamp_to, spec_collide, spec_surface_offset};
use crate::scalar::{
    ceil_sqrt, div_away, div_trunc, lemma_ceil_sqrt_bounds, lemma_div_away_bound,
    lemma_div_trunc_bound, lemma_floor_sqrt_bounds, lemma_square_monotonic, sat_add, sat_mul_div,
    sat_mul_div_away, sat_sub,
};
use crate::vector::{
    differences_fit, dist_sq, lemma_component_le_norm, lemma_far_apart, lemma_norm_sq_range, Vec3,
};
use vstd::prelude::*;

verus! {

/// The magnitude of `x`.
pub open spec fn spec_abs(x: int) -> int {
    if x >= 0 {
        x
    } else {
        -x
    }
}

/// Where `t` is the quotient of `e * m` by `up`, rounded toward zero, the
/// magnitude of `t` plus one, times `up`, exceeds `e * m` in magnitude, and so
/// do the squares.
proof fn lemma_longer_by_one(t: int, up: int, e: int, m: int)
    requires
        up > 0,
        m >= 0,
        e * m >= 0 ==> 0 <= t && e * m < (t + 1) * up,
        e * m <= 0 ==> t <= 0 && (t - 1) * up < e * m,
    ensures
        (e * e) * (m * m) < ((spec_abs(t) + 1) * (spec_abs(t) + 1)) * (up * up),
{
    let a = e * m;
    let x = spec_abs(t);
    let big = (x + 1) * up;
    let g = spec_abs(a);
    if a >= 0 {
        assert(big == (t + 1) * up);
    } else {
        assert((t - 1) * up == -((x + 1) * up)) by (nonlinear_arith)
            requires
                x == -t,
        ;
    }
    assert(0 <= g < big);
    lemma_larger_square(g, big);
    assert(g * g == (e * e) * (m * m)) by (nonlinear_arith)
        requires
            g == e * m || g == -(e * m),
    ;
    assert(big * big == ((x + 1) * (x + 1)) * (up * up)) by (nonlinear_arith)
        requires
            big == (x + 1) * up,
    ;
}

/// What the stretch limit does to one coordinate: the offset from the anchor
/// shrinks to `e * max / up`, rounded toward zero, and nothing saturates.
proof fn lemma_clamp_component(p: i64, a: i64, max: i64, up: u64)
    requires
        0 <= max <= up,
        0 < up,
    ensures
        ({
            let e = sat_sub(p, a);
            let t = sat_mul_div(e, max, up);
            &&& t == div_trunc(e * max, up as int)
            &&& sat_add(a, t) == a + t
            &&& (t * t) * (up * up) <= (e * e) * (max * max)
            &&& (e * e) * (max * max) < ((spec_abs(t as int) + 1) * (spec_abs(t as int) + 1)) * (up
                * up)
        }),
{
    let e = sat_sub(p, a);
    let t0 = div_trunc(e * max, up as int);
    lemma_div_trunc_bound(e * max, up as int);
    lemma_longer_by_one(t0, up as int, e as int, max as int);
    if e == 0 {
        assert(e * max == 0) by (nonlinear_arith)
            requires
                e == 0,
        ;
        assert(t0 == 0);
        assert(t0 * up == 0) by (nonlinear_arith)
            requires
                t0 == 0,
        ;
    } else if e > 0 {
        assert(0 <= e * max <= e * up) by (nonlinear_arith)
            requires
                0 <= max <= up,
                e >= 0,
        ;
        assert(t0 <= e) by (nonlinear_arith)
            requires
                t0 * up <= e * up,
                up > 0,
        ;
    } else {
        assert(e * up <= e * max <= 0) by (nonlinear_arith)
            requires
                0 <= max <= up,
                e <= 0,
        ;
        assert(e <= t0) by (nonlinear_arith)
            requires
                e * up <= t0 * up,
                up > 0,
        ;
    }
    assert(t0 >= 0 ==> t0 * up >= 0) by (nonlinear_arith)
        requires
            up > 0,
    ;
    assert(t0 <= 0 ==> t0 * up <= 0) by (nonlinear_arith)
        requires
            up > 0,
    ;
    lemma_square_of_smaller(t0, up as int, e as int, max as int);
}

/// The length, rounded up, of the saturating difference of two points that
/// are farther apart than `max`: it is positive and no smaller than `max`.
pub proof fn lemma_divisor_reaches(p: Vec3, anchor: Vec3, max: i64)
    requires
        max >= 0,
        dist_sq(p, anchor) > max * max,
    ensures
        max <= ceil_sqrt(p.spec_minus(anchor).spec_norm_sq()) < 0x1_0000_0000_0000_0000,
        0 < ceil_sqrt(p.spec_minus(anchor).spec_norm_sq()),
{
    let e = p.spec_minus(anchor);
    let q = e.spec_norm_sq();
    let c = ceil_sqrt(q);
    lemma_norm_sq_range(e);
    lemma_ceil_sqrt_bounds(q);
    assert(max * max >= 0) by (nonlinear_arith);
    if differences_fit(p, anchor) {
        assert(q == dist_sq(p, anchor));
    } else {
        lemma_far_apart(p, anchor);
        assert(max * max <= i64::MAX * i64::MAX) by (nonlinear_arith)
            requires
                0 <= max <= i64::MAX,
        ;
    }
    assert(q >= max * max && q > 0);
    if c < max {
        lemma_square_monotonic(c, max as nat);
    }
}

/// After the stretch limit was enforced against an anchor, the point is no
/// farther from that anchor than the limit.
pub proof fn lemma_clamp_to_within(p: Vec3, anchor: Vec3, max: i64)
    requires
        max >= 0,
    ensures
        dist_sq(spec_clamp_to(p, anchor, max), anchor) <= max * max,
{
    let r = spec_clamp_to(p, anchor, max);
    if dist_sq(p, anchor) > max * max {
        let e = p.spec_minus(anchor);
        let q = e.spec_norm_sq();
        lemma_divisor_reaches(p, anchor, max);
        lemma_ceil_sqrt_bounds(q);
        let c = ceil_sqrt(q);
        let up = c as u64;
        assert(up == c);
        lemma_clamp_component(p.x, anchor.x, max, up);
        lemma_clamp_component(p.y, anchor.y, max, up);
        lemma_clamp_component(p.z, anchor.z, max, up);
        let tx = sat_mul_div(e.x, max, up) as int;
        let ty = sat_mul_div(e.y, max, up) as int;
        let tz = sat_mul_div(e.z, max, up) as int;
        assert(r.x - anchor.x == tx && r.y - anchor.y == ty && r.z - anchor.z == tz);
        let uu = up * up;
        let mm = max * max;
        let tt = tx * tx + ty * ty + tz * tz;
        let ee = e.x * e.x + e.y * e.y + e.z * e.z;
        assert(tx * tx >= 0 && ty * ty >= 0 && tz * tz >= 0) by (nonlinear_arith);
        assert(e.x * e.x >= 0 && e.y * e.y >= 0 && e.z * e.z >= 0) by (nonlinear_arith);
        assert(mm >= 0) by (nonlinear_arith)
            requires
                mm == max * max,
        ;
        assert(ee == q);
        lemma_sum_times(tx * tx, ty * ty, tz * tz, uu);
        lemma_sum_times(e.x * e.x, e.y * e.y, e.z * e.z, mm);
        assert(uu > 0) by (nonlinear_arith)
            requires
                uu == up * up,
                up > 0,
        ;
        lemma_shrunk_length(tt, ee, mm, uu);
        assert(dist_sq(r, anchor) == tt);
    }
}

/// A point that was pulled back lies at the limit, but for the rounding of
/// its coordinates: it is less than three units nearer to the anchor.
pub proof fn lemma_clamp_to_reaches(p: Vec3, anchor: Vec3, max: i64)
    requires
        max >= 3,
        dist_sq(p, anchor) > max * max,
    ensures
        dist_sq(spec_clamp_to(p, anchor, max), anchor) >= (max - 3) * (max - 3),
{
    let r = spec_clamp_to(p, anchor, max);
    let e = p.spec_minus(anchor);
    let q = e.spec_norm_sq();
    lemma_divisor_reaches(p, anchor, max);
    lemma_ceil_sqrt_bounds(q);
    let c = ceil_sqrt(q);
    let up = c as u64;
    assert(up == c);
    lemma_clamp_component(p.x, anchor.x, max, up);
    lemma_clamp_component(p.y, anchor.y, max, up);
    lemma_clamp_component(p.z, anchor.z, max, up);
    let tx = sat_mul_div(e.x, max, up) as int;
    let ty = sat_mul_div(e.y, max, up) as int;
    let tz = sat_mul_div(e.z, max, up) as int;
    assert(r.x - anchor.x == tx && r.y - anchor.y == ty && r.z - anchor.z == tz);
    let x = spec_abs(tx);
    let y = spec_abs(ty);
    let z = spec_abs(tz);
    let uu = up * up;
    let mm = max * max;
    let ss = (x + 1) * (x + 1) + (y + 1) * (y + 1) + (z + 1) * (z + 1);
    let ee = e.x * e.x + e.y * e.y + e.z * e.z;
    assert(e.x * e.x >= 0 && e.y * e.y >= 0 && e.z * e.z >= 0) by (nonlinear_arith);
    assert(ee == q);
    lemma_sum_times((x + 1) * (x + 1), (y + 1) * (y + 1), (z + 1) * (z + 1), uu);
    lemma_sum_times(e.x * e.x, e.y * e.y, e.z * e.z, mm);
    assert(ee * mm < ss * uu);
    // The anchor is more than `up - 1` away, and `up` is at least `max`.
    let low = (max - 1) * up;
    let high = (up - 1) * max;
    assert(0 <= low <= high) by (nonlinear_arith)
        requires
            low == (max - 1) * up,
            high == (up - 1) * max,
            1 <= max <= up,
    ;
    assert(low * low <= high * high) by (nonlinear_arith)
        requires
            0 <= low <= high,
    ;
    assert(high * high == ((up - 1) * (up - 1)) * mm) by (nonlinear_arith)
        requires
            high == (up - 1) * max,
            mm == max * max,
    ;
    assert(mm >= 0) by (nonlinear_arith)
        requires
            mm == max * max,
    ;
    assert(((up - 1) * (up - 1)) * mm <= ee * mm) by (nonlinear_arith)
        requires
            (up - 1) * (up - 1) < ee,
            mm >= 0,
    ;
    assert(low * low == ((max - 1) * (max - 1)) * uu) by (nonlinear_arith)
        requires
            low == (max - 1) * up,
            uu == up * up,
    ;
    assert(uu > 0) by (nonlinear_arith)
        requires
            uu == up * up,
            up > 0,
    ;
    assert((max - 1) * (max - 1) < ss) by (nonlinear_arith)
        requires
            ((max - 1) * (max - 1)) * uu < ss * uu,
            uu > 0,
    ;
    lemma_shortened_by_one(x, y, z, max - 1);
    assert(x * x == tx * tx && y * y == ty * ty && z * z == tz * tz) by (nonlinear_arith)
        requires
            x == tx || x == -tx,
            y == ty || y == -ty,
            z == tz || z == -tz,
    ;
    assert(dist_sq(r, anchor) == tx * tx + ty * ty + tz * tz);
}

/// After the stretch limit was enforced against a list of anchors, the point
/// is no farther from the last anchor than the limit.
pub proof fn lemma_clamp_all_within_last(p: Vec3, anchors: Seq<Vec3>, max: i64)
    requires
        max >= 0,
        anchors.len() > 0,
    ensures
        dist_sq(spec_clamp_all(p, anchors, max), anchors.last()) <= max * max,
{
    lemma_clamp_to_within(spec_clamp_all(p, anchors.drop_last(), max), anchors.last(), max);
}

/// A negative limit leaves every point where it is.
pub proof fn lemma_clamp_all_unlimited(p: Vec3, anchors: Seq<Vec3>, max: i64)
    requires
        max < 0,
    ensures
        spec_clamp_all(p, anchors, max) == p,
    decreases anchors.len(),
{
    if anchors.len() > 0 {
        lemma_clamp_all_unlimited(p, anchors.drop_last(), max);
    }
}

/// A point that is within the limit of every anchor is left where it is.
pub proof fn lemma_clamp_all_fixpoint(p: Vec3, anchors: Seq<Vec3>, max: i64)
    requires
        forall|j: int| 0 <= j < anchors.len() ==> dist_sq(p, #[trigger] anchors[j]) <= max * max,
    ensures
        spec_clamp_all(p, anchors, max) == p,
    decreases anchors.len(),
{
    if anchors.len() > 0 {
        lemma_clamp_all_fixpoint(p, anchors.drop_last(), max);
    }
}

/// `x - 1`, but zero where `x` is zero.
pub open spec fn spec_less_one(x: int) -> int {
    if x >= 1 {
        x - 1
    } else {
        0
    }
}

/// Where `t` is the quotient of `d * r` by `len`, rounded away from zero, the
/// magnitude of `t` less one, times `len`, does not reach `d * r` in
/// magnitude, and neither do the squares.
proof fn lemma_shorter_by_one(t: int, len: int, d: int, r: int)
    requires
        len > 0,
        r >= 0,
        d * r >= 0 ==> 0 <= t && t * len < d * r + len,
        d * r <= 0 ==> t <= 0 && d * r - len < t * len,
    ensures
        (spec_less_one(spec_abs(t)) * spec_less_one(spec_abs(t))) * (len * len) <= (d * d) * (r
            * r),
{
    let a = d * r;
    let x = spec_abs(t);
    let u = spec_less_one(x);
    let small = u * len;
    let g = spec_abs(a);
    if a >= 0 {
        assert(x == t);
    } else {
        assert(x * len == -(t * len)) by (nonlinear_arith)
            requires
                x == -t,
        ;
    }
    assert(x * len < g + len);
    assert(0 <= small <= g) by (nonlinear_arith)
        requires
            small == u * len,
            u == 0 || u == x - 1,
            u >= 0,
            len > 0,
            x * len < g + len,
            g >= 0,
    ;
    assert(small * small <= g * g) by (nonlinear_arith)
        requires
            0 <= small <= g,
    ;
    assert(g * g == (d * d) * (r * r)) by (nonlinear_arith)
        requires
            g == d * r || g == -(d * r),
    ;
    assert(small * small == (u * u) * (len * len)) by (nonlinear_arith)
        requires
            small == u * len,
    ;
}

/// What the push to the surface does to one coordinate: the offset from the
/// centre becomes `d * radius / len`, rounded away from zero, which is no
/// larger than the radius, and nothing saturates.
proof fn lemma_push_component(c: i64, d: i64, radius: i64, len: u64)
    requires
        radius >= 0,
        len > 0,
        -len <= d <= len,
        i64::MIN <= c - radius,
        c + radius <= i64::MAX,
    ensures
        ({
            let t = sat_mul_div_away(d, radius, len);
            &&& t == div_away(d * radius, len as int)
            &&& -radius <= t <= radius
            &&& sat_add(c, t) == c + t
            &&& (d * d) * (radius * radius) <= (t * t) * (len * len)
            &&& (spec_less_one(spec_abs(t as int)) * spec_less_one(spec_abs(t as int))) * (len
                * len) <= (d * d) * (radius * radius)
        }),
{
    let t0 = div_away(d * radius, len as int);
    lemma_div_away_bound(d * radius, len as int);
    lemma_shorter_by_one(t0, len as int, d as int, radius as int);
    if d >= 0 {
        assert(0 <= d * radius <= len * radius) by (nonlinear_arith)
            requires
                0 <= d <= len,
                radius >= 0,
        ;
        assert(t0 <= radius) by (nonlinear_arith)
            requires
                t0 * len < len * radius + len,
                len > 0,
        ;
    } else {
        assert(-(len * radius) <= d * radius <= 0) by (nonlinear_arith)
            requires
                -len <= d <= 0,
                radius >= 0,
        ;
        assert(-radius <= t0) by (nonlinear_arith)
            requires
                -(len * radius) - len < t0 * len,
                len > 0,
        ;
    }
    assert(t0 >= 0 ==> t0 * len >= 0) by (nonlinear_arith)
        requires
            len > 0,
    ;
    assert(t0 <= 0 ==> t0 * len <= 0) by (nonlinear_arith)
        requires
            len > 0,
    ;
    lemma_square_of_larger(t0, len as int, d as int, radius as int);
}

/// Whether `p` differs from `c` by no more than `r` along each axis.
pub open spec fn spec_within_cube(p: Vec3, c: Vec3, r: i64) -> bool {
    &&& -r <= p.x - c.x <= r
    &&& -r <= p.y - c.y <= r
    &&& -r <= p.z - c.z <= r
}

/// After the collision with a well-formed sphere, the point is outside the
/// sphere or on it. A point that was inside has been moved outward along the
/// ray from the centre, no farther than the radius along any axis.
pub proof fn lemma_collide_outside(sphere: Sphere, damping: i64, p: Vec3, v: Vec3)
    requires
        sphere.wf(),
    ensures
        dist_sq(spec_collide(sphere, damping, p, v).0, sphere.center) >= sphere.radius
            * sphere.radius,
        dist_sq(p, sphere.center) < sphere.radius * sphere.radius ==> spec_within_cube(
            spec_collide(sphere, damping, p, v).0,
            sphere.center,
            sphere.radius,
        ),
{
    let c = sphere.center;
    let radius = sphere.radius;
    let r = spec_collide(sphere, damping, p, v).0;
    if dist_sq(p, c) < radius * radius {
        let delta = p.spec_minus(c);
        assert(radius * radius <= i64::MAX * i64::MAX) by (nonlinear_arith)
            requires
                0 <= radius <= i64::MAX,
        ;
        if !differences_fit(p, c) {
            lemma_far_apart(p, c);
            assert(i64::MAX * i64::MAX <= (i64::MAX + 1) * (i64::MAX + 1)) by (nonlinear_arith);
        }
        let q = delta.spec_norm_sq();
        assert(q == dist_sq(p, c));
        let n = delta.spec_norm();
        lemma_norm_sq_range(delta);
        lemma_floor_sqrt_bounds(q);
        let o = spec_surface_offset(delta, radius);
        if n == 0 {
            assert(r.x - c.x == 0 && r.y - c.y == radius && r.z - c.z == 0);
            assert(dist_sq(r, c) == radius * radius) by (nonlinear_arith)
                requires
                    dist_sq(r, c) == (r.x - c.x) * (r.x - c.x) + (r.y - c.y) * (r.y - c.y) + (r.z
                        - c.z) * (r.z - c.z),
                    r.x - c.x == 0,
                    r.y - c.y == radius,
                    r.z - c.z == 0,
            ;
        } else {
            let len = n as u64;
            assert(len == n);
            lemma_component_le_norm(delta);
            lemma_push_component(c.x, delta.x, radius, len);
            lemma_push_component(c.y, delta.y, radius, len);
            lemma_push_component(c.z, delta.z, radius, len);
            let tx = o.x as int;
            let ty = o.y as int;
            let tz = o.z as int;
            assert(r.x - c.x == tx && r.y - c.y == ty && r.z - c.z == tz);
            let ll = len * len;
            let rr = radius * radius;
            let tt = tx * tx + ty * ty + tz * tz;
            let ee = delta.x * delta.x + delta.y * delta.y + delta.z * delta.z;
            assert(tx * tx >= 0 && ty * ty >= 0 && tz * tz >= 0) by (nonlinear_arith);
            assert(delta.x * delta.x >= 0 && delta.y * delta.y >= 0 && delta.z * delta.z >= 0)
                by (nonlinear_arith);
            assert(rr >= 0) by (nonlinear_arith)
                requires
                    rr == radius * radius,
            ;
            assert(ee == q);
            lemma_sum_times(tx * tx, ty * ty, tz * tz, ll);
            lemma_sum_times(delta.x * delta.x, delta.y * delta.y, delta.z * delta.z, rr);
            assert(ll > 0) by (nonlinear_arith)
                requires
                    ll == len * len,
                    len > 0,
            ;
            lemma_grown_length(tt, ee, rr, ll);
            assert(dist_sq(r, c) == tt);
        }
    }
}

/// A point that the collision moved lies on the sphere, but for the rounding
/// of its coordinates and of the length of its ray. A point at the centre is
/// moved to the surface exactly. Any other point inside, `len` away from the
/// centre by the rounded length of its ray, ends less than
/// `radius / len + 2` beyond the surface.
pub proof fn lemma_collide_near_surface(sphere: Sphere, damping: i64, p: Vec3, v: Vec3)
    requires
        sphere.wf(),
        dist_sq(p, sphere.center) < sphere.radius * sphere.radius,
    ensures
        ({
            let len = p.spec_minus(sphere.center).spec_norm();
            let moved = spec_collide(sphere, damping, p, v).0;
            if p == sphere.center {
                dist_sq(moved, sphere.center) == sphere.radius * sphere.radius
            } else {
                len > 0 && dist_sq(moved, sphere.center) * (len * len) < ((len + 1) * sphere.radius
                    + 2 * len) * ((len + 1) * sphere.radius + 2 * len)
            }
        }),
{
    let c = sphere.center;
    let radius = sphere.radius;
    let r = spec_collide(sphere, damping, p, v).0;
    let delta = p.spec_minus(c);
    assert(radius * radius <= i64::MAX * i64::MAX) by (nonlinear_arith)
        requires
            0 <= radius <= i64::MAX,
    ;
    if !differences_fit(p, c) {
        lemma_far_apart(p, c);
        assert(i64::MAX * i64::MAX <= (i64::MAX + 1) * (i64::MAX + 1)) by (nonlinear_arith);
    }
    let q = delta.spec_norm_sq();
    assert(q == dist_sq(p, c));
    let n = delta.spec_norm();
    lemma_norm_sq_range(delta);
    lemma_floor_sqrt_bounds(q);
    assert(delta.x * delta.x >= 0 && delta.y * delta.y >= 0 && delta.z * delta.z >= 0)
        by (nonlinear_arith);
    if p == c {
        assert(delta.x == 0 && delta.y == 0 && delta.z == 0);
        assert(delta.x * delta.x == 0 && delta.y * delta.y == 0 && delta.z * delta.z == 0)
            by (nonlinear_arith)
            requires
                delta.x == 0 && delta.y == 0 && delta.z == 0,
        ;
        assert(q == 0);
        assert(n == 0) by {
            if n > 0 {
                lemma_square_monotonic(1, n);
            }
        }
        assert(r.x - c.x == 0 && r.y - c.y == radius && r.z - c.z == 0);
        assert(dist_sq(r, c) == radius * radius) by (nonlinear_arith)
            requires
                dist_sq(r, c) == (r.x - c.x) * (r.x - c.x) + (r.y - c.y) * (r.y - c.y) + (r.z - c.z)
                    * (r.z - c.z),
                r.x - c.x == 0,
                r.y - c.y == radius,
                r.z - c.z == 0,
        ;
    } else {
        assert(q > 0) by {
            if delta.x != 0 {
                assert(delta.x * delta.x > 0) by (nonlinear_arith)
                    requires
                        delta.x != 0,
                ;
            } else if delta.y != 0 {
                assert(delta.y * delta.y > 0) by (nonlinear_arith)
                    requires
                        delta.y != 0,
                ;
            } else {
                assert(delta.z != 0);
                assert(delta.z * delta.z > 0) by (nonlinear_arith)
                    requires
                        delta.z != 0,
                ;
            }
        }
        assert(n > 0) by {
            if n == 0 {
                assert((n + 1) * (n + 1) == 1) by (nonlinear_arith)
                    requires
                        n == 0,
                ;
            }
        }
        let len = n as u64;
        assert(len == n);
        let o = spec_surface_offset(delta, radius);
        lemma_component_le_norm(delta);
        lemma_push_component(c.x, delta.x, radius, len);
        lemma_push_component(c.y, delta.y, radius, len);
        lemma_push_component(c.z, delta.z, radius, len);
        let tx = o.x as int;
        let ty = o.y as int;
        let tz = o.z as int;
        assert(r.x - c.x == tx && r.y - c.y == ty && r.z - c.z == tz);
        let x = spec_abs(tx);
        let y = spec_abs(ty);
        let z = spec_abs(tz);
        let u = spec_less_one(x);
        let v1 = spec_less_one(y);
        let w = spec_less_one(z);
        let ll = len * len;
        let rr = radius * radius;
        let ee = delta.x * delta.x + delta.y * delta.y + delta.z * delta.z;
        assert(ee == q);
        lemma_sum_times(u * u, v1 * v1, w * w, ll);
        lemma_sum_times(delta.x * delta.x, delta.y * delta.y, delta.z * delta.z, rr);
        assert((u * u + v1 * v1 + w * w) * ll <= ee * rr);
        // The sphere has a point inside, so its radius is positive.
        assert(rr > 0);
        let big = (len + 1) * radius;
        assert(ee * rr < ((len + 1) * (len + 1)) * rr) by (nonlinear_arith)
            requires
                ee < (len + 1) * (len + 1),
                rr > 0,
        ;
        assert(big * big == ((len + 1) * (len + 1)) * rr) by (nonlinear_arith)
            requires
                big == (len + 1) * radius,
                rr == radius * radius,
        ;
        assert(big >= 0) by (nonlinear_arith)
            requires
                big == (len + 1) * radius,
                radius >= 0,
                len >= 0,
        ;
        lemma_lengthened_by_one(x, y, z, u, v1, w, len as int, big);
        assert(x * x == tx * tx && y * y == ty * ty && z * z == tz * tz) by (nonlinear_arith)
            requires
                x == tx || x == -tx,
                y == ty || y == -ty,
                z == tz || z == -tz,
        ;
        assert(dist_sq(r, c) == tx * tx + ty * ty + tz * tz);
    }
}

} // verus!
