//! Three-dimensional vectors of fixed-point scalars.

use crate::scalar::{
    floor_sqrt, fx_add, fx_mul, fx_sub, isqrt, lemma_floor_sqrt_bounds, lemma_product_range,
    lemma_square_monotonic, sat_add, sat_mul, sat_sub,
};
use vstd::prelude::*;

verus! {

/// A point or a direction in world space.
#[derive(Clone, Copy, Debug, PartialEq, Eq, Structural)]
pub struct Vec3 {
    pub x: i64,
    pub y: i64,
    pub z: i64,
}

/// The square of `x`.
pub open spec fn square(x: int) -> nat {
    (x * x) as nat
}

/// The exact squared distance between two points, with no saturation.
pub open spec fn dist_sq(a: Vec3, b: Vec3) -> nat {
    square(a.x - b.x) + square(a.y - b.y) + square(a.z - b.z)
}

/// Whether the difference of `a` and `b` is a scalar.
pub open spec fn difference_fits(a: i64, b: i64) -> bool {
    i64::MIN <= a - b <= i64::MAX
}

/// Whether each coordinate of `a - b` is a scalar, so that the saturating
/// difference of the two points is their exact difference.
pub open spec fn differences_fit(a: Vec3, b: Vec3) -> bool {
    difference_fits(a.x, b.x) && difference_fits(a.y, b.y) && difference_fits(a.z, b.z)
}

impl Vec3 {
    /// The componentwise saturating sum.
    pub open spec fn spec_plus(self, other: Vec3) -> Vec3 {
        Vec3 {
            x: sat_add(self.x, other.x),
            y: sat_add(self.y, other.y),
            z: sat_add(self.z, other.z),
        }
    }

    /// The componentwise saturating difference.
    pub open spec fn spec_minus(self, other: Vec3) -> Vec3 {
        Vec3 {
            x: sat_sub(self.x, other.x),
            y: sat_sub(self.y, other.y),
            z: sat_sub(self.z, other.z),
        }
    }

    /// Each component multiplied by the scalar `k`.
    pub open spec fn spec_scaled(self, k: i64) -> Vec3 {
        Vec3 { x: sat_mul(self.x, k), y: sat_mul(self.y, k), z: sat_mul(self.z, k) }
    }

    /// The squared Euclidean length.
    pub open spec fn spec_norm_sq(self) -> nat {
        square(self.x as int) + square(self.y as int) + square(self.z as int)
    }

    /// The Euclidean length, rounded down.
    pub open spec fn spec_norm(self) -> nat {
        floor_sqrt(self.spec_norm_sq())
    }

    /// The vector with the given components.
    pub fn new(x: i64, y: i64, z: i64) -> (r: Vec3)
        ensures
            r == (Vec3 { x, y, z }),
    {
        Vec3 { x, y, z }
    }

    /// The origin.
    pub fn zero() -> (r: Vec3)
        ensures
            r == (Vec3 { x: 0, y: 0, z: 0 }),
    {
        Vec3 { x: 0, y: 0, z: 0 }
    }

    /// The componentwise saturating sum.
    pub fn plus(self, other: Vec3) -> (r: Vec3)
        ensures
            r == self.spec_plus(other),
    {
        Vec3 {
            x: fx_add(self.x, other.x),
            y: fx_add(self.y, other.y),
            z: fx_add(self.z, other.z),
        }
    }

    /// The componentwise saturating difference.
    pub fn minus(self, other: Vec3) -> (r: Vec3)
        ensures
            r == self.spec_minus(other),
    {
        Vec3 {
            x: fx_sub(self.x, other.x),
            y: fx_sub(self.y, other.y),
            z: fx_sub(self.z, other.z),
        }
    }

    /// Each component multiplied by the scalar `k`.
    pub fn scaled(self, k: i64) -> (r: Vec3)
        ensures
            r == self.spec_scaled(k),
    {
        Vec3 { x: fx_mul(self.x, k), y: fx_mul(self.y, k), z: fx_mul(self.z, k) }
    }

    /// The squared Euclidean length.
    pub fn norm_sq(self) -> (r: u128)
        ensures
            r as nat == self.spec_norm_sq(),
    {
        proof {
            lemma_norm_sq_range(self);
            lemma_product_range(self.x, self.x);
            lemma_product_range(self.y, self.y);
            lemma_product_range(self.z, self.z);
            assert(self.x * self.x >= 0 && self.y * self.y >= 0 && self.z * self.z >= 0)
                by (nonlinear_arith);
        }
        let xx: i128 = (self.x as i128) * (self.x as i128);
        let yy: i128 = (self.y as i128) * (self.y as i128);
        let zz: i128 = (self.z as i128) * (self.z as i128);
        (xx as u128) + (yy as u128) + (zz as u128)
    }

    /// The exact squared distance to `other`, or nothing where a coordinate
    /// of the difference is no scalar: the points are then farther apart than
    /// any length that a scalar can hold.
    pub fn distance_sq(self, other: Vec3) -> (r: Option<u128>)
        ensures
            r is Some <==> differences_fit(self, other),
            r matches Some(q) ==> q == dist_sq(self, other),
    {
        let d: Vec3 = self.minus(other);
        if d.x as i128 != self.x as i128 - other.x as i128 || d.y as i128 != self.y as i128
            - other.y as i128 || d.z as i128 != self.z as i128 - other.z as i128 {
            None
        } else {
            Some(d.norm_sq())
        }
    }

    /// The Euclidean length, rounded down.
    pub fn norm(self) -> (r: u64)
        ensures
            r as nat == self.spec_norm(),
    {
        isqrt(self.norm_sq())
    }
}

/// A squared length fits in a `u128`, and a length in a `u64`.
pub proof fn lemma_norm_sq_range(v: Vec3)
    ensures
        v.spec_norm_sq() <= 0xc000_0000_0000_0000_0000_0000_0000_0000,
        v.spec_norm() < 0xffff_ffff_ffff_ffff,
{
    lemma_product_range(v.x, v.x);
    lemma_product_range(v.y, v.y);
    lemma_product_range(v.z, v.z);
    assert(v.x * v.x >= 0 && v.y * v.y >= 0 && v.z * v.z >= 0) by (nonlinear_arith);
    lemma_floor_sqrt_bounds(v.spec_norm_sq());
    let r = v.spec_norm();
    if r >= 0xffff_ffff_ffff_ffff {
        lemma_square_monotonic(0xffff_ffff_ffff_ffff, r);
        assert(0xffff_ffff_ffff_ffffnat * 0xffff_ffff_ffff_ffffnat
            == 0xffff_ffff_ffff_fffe_0000_0000_0000_0001nat) by (nonlinear_arith);
    }
}

/// Two points whose difference is no vector of scalars are farther apart
/// than the largest scalar, and the saturating difference is at least as long
/// as the largest scalar.
pub proof fn lemma_far_apart(a: Vec3, b: Vec3)
    requires
        !differences_fit(a, b),
    ensures
        dist_sq(a, b) >= (i64::MAX + 1) * (i64::MAX + 1),
        a.spec_minus(b).spec_norm_sq() >= i64::MAX * i64::MAX,
{
    let d = a.spec_minus(b);
    lemma_far_component(a.x, b.x);
    lemma_far_component(a.y, b.y);
    lemma_far_component(a.z, b.z);
    assert((a.x - b.x) * (a.x - b.x) >= 0 && (a.y - b.y) * (a.y - b.y) >= 0 && (a.z - b.z) * (a.z
        - b.z) >= 0) by (nonlinear_arith);
    assert(d.x * d.x >= 0 && d.y * d.y >= 0 && d.z * d.z >= 0) by (nonlinear_arith);
}

/// A difference that is no scalar has a square beyond that of the largest
/// scalar, and saturates to a value whose square reaches it.
proof fn lemma_far_component(a: i64, b: i64)
    ensures
        !difference_fits(a, b) ==> (a - b) * (a - b) >= (i64::MAX + 1) * (i64::MAX + 1) && sat_sub(
            a,
            b,
        ) * sat_sub(a, b) >= i64::MAX * i64::MAX,
{
    if !difference_fits(a, b) {
        let x = a - b;
        let s = sat_sub(a, b) as int;
        let m = i64::MAX as int;
        assert(x * x >= (m + 1) * (m + 1)) by (nonlinear_arith)
            requires
                x >= m + 1 || x <= -(m + 1),
                m >= 0,
        ;
        assert(s * s >= m * m) by (nonlinear_arith)
            requires
                s >= m || s <= -m,
                m >= 0,
        ;
    }
}

/// Each component of a vector is no longer than the vector.
pub proof fn lemma_component_le_norm(v: Vec3)
    ensures
        -v.spec_norm() <= v.x <= v.spec_norm(),
        -v.spec_norm() <= v.y <= v.spec_norm(),
        -v.spec_norm() <= v.z <= v.spec_norm(),
{
    let r = v.spec_norm();
    lemma_floor_sqrt_bounds(v.spec_norm_sq());
    assert(v.x * v.x >= 0 && v.y * v.y >= 0 && v.z * v.z >= 0) by (nonlinear_arith);
    lemma_square_bound(v.x as int, r);
    lemma_square_bound(v.y as int, r);
    lemma_square_bound(v.z as int, r);
}

/// A number whose square is below `(r + 1)^2` has magnitude at most `r`.
pub proof fn lemma_square_bound(x: int, r: nat)
    requires
        x * x < (r + 1) * (r + 1),
    ensures
        -r <= x <= r,
{
    if x > r {
        assert(x * x >= (r + 1) * (r + 1)) by (nonlinear_arith)
            requires
                x >= r + 1,
                r >= 0,
        ;
    }
    if x < -r {
        assert(x * x >= (r + 1) * (r + 1)) by (nonlinear_arith)
            requires
                -x >= r + 1,
                r >= 0,
        ;
    }
}

} // verus!
