//! The pieces of the per-vertex update: spring forces, the stretch limit and
//! the collision with the sphere.

use crate::bounds::{
    lemma_clamp_all_within_last, lemma_clamp_to_reaches, lemma_clamp_to_within,
    lemma_collide_near_surface, lemma_collide_outside, lemma_divisor_reaches, spec_within_cube,
};
use crate::config::Sphere;
use crate::scalar::{
    ceil_sqrt, fx_add, fx_mul, fx_mul_div, fx_mul_div_away, fx_neg, fx_sub, isqrt_ceil,
    lemma_product_range, sat, sat_add, sat_mul, sat_mul_div, sat_mul_div_away, sat_neg, sat_sub,
    saturate, ONE,
};
use crate::vector::{differences_fit, dist_sq, lemma_far_apart, Vec3};
use vstd::prelude::*;

verus! {

/// The null vector.
pub open spec fn spec_zero() -> Vec3 {
    Vec3 { x: 0, y: 0, z: 0 }
}

/// The force that a spring of stiffness `k` and rest length `rest` exerts on
/// its end at `p` when the other end is at `anchor`: `k` times the extension,
/// directed toward the anchor when the spring is stretched. A spring of
/// length zero has no direction and exerts no force.
pub open spec fn spec_spring_force(k: i64, rest: i64, p: Vec3, anchor: Vec3) -> Vec3 {
    let d = p.spec_minus(anchor);
    let len = d.spec_norm();
    if len == 0 {
        spec_zero()
    } else {
        let pull = sat_neg(sat_mul(k, sat(len - rest) as i64));
        Vec3 {
            x: sat_mul_div(pull, d.x, len as u64),
            y: sat_mul_div(pull, d.y, len as u64),
            z: sat_mul_div(pull, d.z, len as u64),
        }
    }
}

/// The force `f` plus the forces of the springs from `p` to each of the
/// anchors, added one after the other in the order of the anchors.
pub open spec fn spec_add_spring_forces(
    f: Vec3,
    k: i64,
    rest: i64,
    p: Vec3,
    anchors: Seq<Vec3>,
) -> Vec3
    decreases anchors.len(),
{
    if anchors.len() == 0 {
        f
    } else {
        spec_add_spring_forces(f, k, rest, p, anchors.drop_last()).spec_plus(
            spec_spring_force(k, rest, p, anchors.last()),
        )
    }
}

/// The point `p`, pulled back toward `anchor` where it is farther from it
/// than `max`: it then lies on the segment from `anchor` to `p`, as far from
/// `anchor` as the rounding of its coordinates allows without exceeding `max`.
/// A negative `max` sets no limit.
pub open spec fn spec_clamp_to(p: Vec3, anchor: Vec3, max: i64) -> Vec3 {
    if max < 0 || dist_sq(p, anchor) <= max * max {
        p
    } else {
        let e = p.spec_minus(anchor);
        let up = ceil_sqrt(e.spec_norm_sq()) as u64;
        anchor.spec_plus(
            Vec3 {
                x: sat_mul_div(e.x, max, up),
                y: sat_mul_div(e.y, max, up),
                z: sat_mul_div(e.z, max, up),
            },
        )
    }
}

/// The point `p` after the stretch limit `max` was enforced against each of
/// the anchors in turn. A later anchor may undo what an earlier one
/// achieved: the last one wins.
pub open spec fn spec_clamp_all(p: Vec3, anchors: Seq<Vec3>, max: i64) -> Vec3
    decreases anchors.len(),
{
    if anchors.len() == 0 {
        p
    } else {
        spec_clamp_to(spec_clamp_all(p, anchors.drop_last(), max), anchors.last(), max)
    }
}

/// The direction of `d` as a vector of length 1.0, and straight up where `d`
/// is the null vector.
pub open spec fn spec_unit(d: Vec3) -> Vec3 {
    let len = d.spec_norm();
    if len == 0 {
        Vec3 { x: 0, y: ONE, z: 0 }
    } else {
        Vec3 {
            x: sat_mul_div(d.x, ONE, len as u64),
            y: sat_mul_div(d.y, ONE, len as u64),
            z: sat_mul_div(d.z, ONE, len as u64),
        }
    }
}

/// The vector of length `radius` in the direction of `d`, each component
/// rounded away from zero; straight up where `d` is the null vector.
pub open spec fn spec_surface_offset(d: Vec3, radius: i64) -> Vec3 {
    let len = d.spec_norm();
    if len == 0 {
        Vec3 { x: 0, y: radius, z: 0 }
    } else {
        Vec3 {
            x: sat_mul_div_away(d.x, radius, len as u64),
            y: sat_mul_div_away(d.y, radius, len as u64),
            z: sat_mul_div_away(d.z, radius, len as u64),
        }
    }
}

/// The fixed-point inner product, each of the three products rounded and
/// saturated by itself.
pub open spec fn spec_dot(a: Vec3, b: Vec3) -> i64 {
    sat_add(sat_add(sat_mul(a.x, b.x), sat_mul(a.y, b.y)), sat_mul(a.z, b.z))
}

/// Position and velocity after the collision with the sphere. A point
/// outside the sphere or on it keeps both. A point inside is moved along the
/// ray from the centre to the surface; its velocity loses the component along
/// that ray, and what is left is scaled by `1 - damping`.
pub open spec fn spec_collide(sphere: Sphere, damping: i64, p: Vec3, v: Vec3) -> (Vec3, Vec3) {
    if dist_sq(p, sphere.center) >= sphere.radius * sphere.radius {
        (p, v)
    } else {
        let delta = p.spec_minus(sphere.center);
        let n = spec_unit(delta);
        let slide = v.spec_minus(n.spec_scaled(spec_dot(v, n)));
        (
            sphere.center.spec_plus(spec_surface_offset(delta, sphere.radius)),
            slide.spec_scaled(sat_sub(ONE, damping)),
        )
    }
}

/// The force that a spring exerts on its end at `p`.
pub fn spring_force(k: i64, rest: i64, p: Vec3, anchor: Vec3) -> (f: Vec3)
    ensures
        f == spec_spring_force(k, rest, p, anchor),
{
    let d: Vec3 = p.minus(anchor);
    let len: u64 = d.norm();
    if len == 0 {
        Vec3::zero()
    } else {
        let stretch: i64 = saturate(len as i128 - rest as i128);
        let pull: i64 = fx_neg(fx_mul(k, stretch));
        Vec3 {
            x: fx_mul_div(pull, d.x, len),
            y: fx_mul_div(pull, d.y, len),
            z: fx_mul_div(pull, d.z, len),
        }
    }
}

/// Adds to `f` the forces of the springs from `p` to each of the anchors.
pub fn add_spring_forces(f: Vec3, k: i64, rest: i64, p: Vec3, anchors: &Vec<Vec3>) -> (r: Vec3)
    ensures
        r == spec_add_spring_forces(f, k, rest, p, anchors@),
{
    let mut acc: Vec3 = f;
    let mut i: usize = 0;
    while i < anchors.len()
        invariant
            i <= anchors.len(),
            acc == spec_add_spring_forces(f, k, rest, p, anchors@.take(i as int)),
        decreases anchors.len() - i,
    {
        proof {
            assert(anchors@.take(i + 1).drop_last() == anchors@.take(i as int));
        }
        acc = acc.plus(spring_force(k, rest, p, anchors[i]));
        i = i + 1;
    }
    proof {
        assert(anchors@.take(i as int) == anchors@);
    }
    acc
}

/// Pulls `p` back toward `anchor` where it is farther from it than `max`.
pub fn clamp_to(p: Vec3, anchor: Vec3, max: i64) -> (r: Vec3)
    ensures
        r == spec_clamp_to(p, anchor, max),
        max >= 0 ==> dist_sq(r, anchor) <= max * max,
        max >= 3 && dist_sq(p, anchor) > max * max ==> dist_sq(r, anchor) >= (max - 3) * (max - 3),
{
    if max < 0 {
        return p;
    }
    proof {
        lemma_clamp_to_within(p, anchor, max);
        if max >= 3 && dist_sq(p, anchor) > max * max {
            lemma_clamp_to_reaches(p, anchor, max);
        }
        lemma_product_range(max, max);
        if !differences_fit(p, anchor) {
            lemma_far_apart(p, anchor);
            assert(max * max <= i64::MAX * i64::MAX) by (nonlinear_arith)
                requires
                    0 <= max <= i64::MAX,
            ;
        }
    }
    let limit: i128 = (max as i128) * (max as i128);
    let within: bool = match p.distance_sq(anchor) {
        Some(q) => q <= limit as u128,
        None => false,
    };
    if within {
        return p;
    }
    let e: Vec3 = p.minus(anchor);
    proof {
        lemma_divisor_reaches(p, anchor, max);
    }
    let up: u64 = isqrt_ceil(e.norm_sq()) as u64;
    anchor.plus(
        Vec3 { x: fx_mul_div(e.x, max, up), y: fx_mul_div(e.y, max, up), z: fx_mul_div(e.z, max, up) },
    )
}

/// Enforces the stretch limit `max` against each of the anchors in turn.
pub fn clamp_all(p: Vec3, anchors: &Vec<Vec3>, max: i64) -> (r: Vec3)
    ensures
        r == spec_clamp_all(p, anchors@, max),
        max >= 0 && anchors@.len() > 0 ==> dist_sq(r, anchors@.last()) <= max * max,
{
    let mut acc: Vec3 = p;
    let mut i: usize = 0;
    while i < anchors.len()
        invariant
            i <= anchors.len(),
            acc == spec_clamp_all(p, anchors@.take(i as int), max),
        decreases anchors.len() - i,
    {
        proof {
            assert(anchors@.take(i + 1).drop_last() == anchors@.take(i as int));
        }
        acc = clamp_to(acc, anchors[i], max);
        i = i + 1;
    }
    proof {
        assert(anchors@.take(i as int) == anchors@);
        if max >= 0 && anchors@.len() > 0 {
            lemma_clamp_all_within_last(p, anchors@, max);
        }
    }
    acc
}

/// The direction of `d` as a vector of length 1.0.
pub fn unit(d: Vec3) -> (n: Vec3)
    ensures
        n == spec_unit(d),
{
    let len: u64 = d.norm();
    if len == 0 {
        Vec3 { x: 0, y: ONE, z: 0 }
    } else {
        Vec3 {
            x: fx_mul_div(d.x, ONE, len),
            y: fx_mul_div(d.y, ONE, len),
            z: fx_mul_div(d.z, ONE, len),
        }
    }
}

/// The vector of length `radius` in the direction of `d`.
pub fn surface_offset(d: Vec3, radius: i64) -> (o: Vec3)
    ensures
        o == spec_surface_offset(d, radius),
{
    let len: u64 = d.norm();
    if len == 0 {
        Vec3 { x: 0, y: radius, z: 0 }
    } else {
        Vec3 {
            x: fx_mul_div_away(d.x, radius, len),
            y: fx_mul_div_away(d.y, radius, len),
            z: fx_mul_div_away(d.z, radius, len),
        }
    }
}

/// The fixed-point inner product.
pub fn dot(a: Vec3, b: Vec3) -> (r: i64)
    ensures
        r == spec_dot(a, b),
{
    fx_add(fx_add(fx_mul(a.x, b.x), fx_mul(a.y, b.y)), fx_mul(a.z, b.z))
}

/// Position and velocity after the collision with the sphere.
pub fn collide(sphere: &Sphere, damping: i64, p: Vec3, v: Vec3) -> (r: (Vec3, Vec3))
    ensures
        r == spec_collide(*sphere, damping, p, v),
        sphere.wf() ==> dist_sq(r.0, sphere.center) >= sphere.radius * sphere.radius,
        sphere.wf() && dist_sq(p, sphere.center) < sphere.radius * sphere.radius
            ==> spec_within_cube(r.0, sphere.center, sphere.radius),
        sphere.wf() && dist_sq(p, sphere.center) < sphere.radius * sphere.radius ==> ({
            let len = p.spec_minus(sphere.center).spec_norm();
            if p == sphere.center {
                dist_sq(r.0, sphere.center) == sphere.radius * sphere.radius
            } else {
                len > 0 && dist_sq(r.0, sphere.center) * (len * len) < ((len + 1) * sphere.radius
                    + 2 * len) * ((len + 1) * sphere.radius + 2 * len)
            }
        }),
{
    proof {
        if sphere.wf() {
            lemma_collide_outside(*sphere, damping, p, v);
            if dist_sq(p, sphere.center) < sphere.radius * sphere.radius {
                lemma_collide_near_surface(*sphere, damping, p, v);
            }
        }
        lemma_product_range(sphere.radius, sphere.radius);
        assert(sphere.radius * sphere.radius >= 0) by (nonlinear_arith);
        if !differences_fit(p, sphere.center) {
            lemma_far_apart(p, sphere.center);
            assert(sphere.radius * sphere.radius <= (i64::MAX + 1) * (i64::MAX + 1))
                by (nonlinear_arith)
                requires
                    -(i64::MAX + 1) <= sphere.radius <= i64::MAX,
            ;
        }
    }
    let limit: i128 = (sphere.radius as i128) * (sphere.radius as i128);
    let outside: bool = match p.distance_sq(sphere.center) {
        Some(q) => q >= limit as u128,
        None => true,
    };
    if outside {
        return (p, v);
    }
    let delta: Vec3 = p.minus(sphere.center);
    let n: Vec3 = unit(delta);
    let slide: Vec3 = v.minus(n.scaled(dot(v, n)));
    (sphere.center.plus(surface_offset(delta, sphere.radius)), slide.scaled(fx_sub(ONE, damping)))
}

} // verus!
