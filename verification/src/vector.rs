use vstd::prelude::*;
use crate::constants::{COORD_MAX, EPSILON, SCALE, VEC_MAX};
use crate::math::{
    abs_int, approx_eq, div_fixed, eps_eq, fdiv, fmul, is_sqrt_floor, isqrt,
    lemma_abs_mul_le, lemma_fmul_le, lemma_sqrt_floor_exists, lemma_tdiv_le, mul_fixed,
    sqrt_floor, tdiv, tdiv_i128,
};

verus! {

/// A point or direction in space. Components are fixed-point world
/// coordinates: `SCALE` steps per world unit.
#[derive(Clone, Copy, Debug)]
pub struct Vec3D {
    pub x: i64,
    pub y: i64,
    pub z: i64,
}

/// What `dot` returns: the scaled sum of the componentwise products.
pub open spec fn dot_spec(a: Vec3D, b: Vec3D) -> int {
    tdiv(a.x * b.x + a.y * b.y + a.z * b.z, SCALE as int)
}

/// What `length` returns: the square root of the sum of squares. The
/// components carry one factor of `SCALE` each, so the root is again a
/// fixed-point length and no rescaling is needed.
pub open spec fn length_spec(a: Vec3D) -> int {
    sqrt_floor(a.x * a.x + a.y * a.y + a.z * a.z)
}

/// What `add` returns, as a whole vector.
pub open spec fn vadd_spec(a: Vec3D, b: Vec3D) -> Vec3D {
    Vec3D { x: (a.x + b.x) as i64, y: (a.y + b.y) as i64, z: (a.z + b.z) as i64 }
}

/// What `sub` returns, as a whole vector.
pub open spec fn vsub_spec(a: Vec3D, b: Vec3D) -> Vec3D {
    Vec3D { x: (a.x - b.x) as i64, y: (a.y - b.y) as i64, z: (a.z - b.z) as i64 }
}

/// What `cross` returns, as a whole vector.
pub open spec fn cross_spec(a: Vec3D, b: Vec3D) -> Vec3D {
    Vec3D {
        x: tdiv(a.y * b.z - a.z * b.y, SCALE as int) as i64,
        y: tdiv(a.z * b.x - a.x * b.z, SCALE as int) as i64,
        z: tdiv(a.x * b.y - a.y * b.x, SCALE as int) as i64,
    }
}

/// What `normalise` returns, as a whole vector.
pub open spec fn normalise_spec(a: Vec3D) -> Vec3D {
    Vec3D {
        x: fdiv(a.x as int, length_spec(a)) as i64,
        y: fdiv(a.y as int, length_spec(a)) as i64,
        z: fdiv(a.z as int, length_spec(a)) as i64,
    }
}

/// What `reflect` returns, as a whole vector.
pub open spec fn reflect_spec(v: Vec3D, n: Vec3D) -> Vec3D {
    Vec3D {
        x: (v.x - fmul(2 * n.x, dot_spec(v, n))) as i64,
        y: (v.y - fmul(2 * n.y, dot_spec(v, n))) as i64,
        z: (v.z - fmul(2 * n.z, dot_spec(v, n))) as i64,
    }
}

/// A length is never negative and is bounded by any bound `c` whose square
/// covers the summed squares of the components.
pub proof fn lemma_length_spec_bound(v: Vec3D, cb: int, c: int)
    requires
        v.bounded(cb),
        0 <= cb,
        0 <= c,
        3 * (cb * cb) <= c * c,
    ensures
        0 <= length_spec(v) <= c,
{
    lemma_abs_mul_le(v.x as int, v.x as int, cb, cb);
    lemma_abs_mul_le(v.y as int, v.y as int, cb, cb);
    lemma_abs_mul_le(v.z as int, v.z as int, cb, cb);
    assert(v.x * v.x >= 0) by (nonlinear_arith);
    assert(v.y * v.y >= 0) by (nonlinear_arith);
    assert(v.z * v.z >= 0) by (nonlinear_arith);
    let n = v.x * v.x + v.y * v.y + v.z * v.z;
    lemma_sqrt_floor_exists(n);
    let r = length_spec(v);
    assert(r <= c) by (nonlinear_arith)
        requires 0 <= r, r * r <= n, n <= c * c, 0 <= c;
}

/// Normalising a vector of length at least one yields unit-scale
/// components.
pub proof fn lemma_normalise_spec_bounded(v: Vec3D)
    requires
        v.bounded(VEC_MAX as int),
        length_spec(v) >= 1,
    ensures
        normalise_spec(v).bounded(SCALE as int),
        normalise_spec(v).x as int == fdiv(v.x as int, length_spec(v)),
        normalise_spec(v).y as int == fdiv(v.y as int, length_spec(v)),
        normalise_spec(v).z as int == fdiv(v.z as int, length_spec(v)),
{
    let n = v.x * v.x + v.y * v.y + v.z * v.z;
    let len = length_spec(v);
    assert(v.x * v.x >= 0) by (nonlinear_arith);
    assert(v.y * v.y >= 0) by (nonlinear_arith);
    assert(v.z * v.z >= 0) by (nonlinear_arith);
    lemma_sqrt_floor_exists(n);
    assert(-len <= v.x as int <= len) by (nonlinear_arith)
        requires v.x * v.x <= n, n < (len + 1) * (len + 1), 0 <= len;
    assert(-len <= v.y as int <= len) by (nonlinear_arith)
        requires v.y * v.y <= n, n < (len + 1) * (len + 1), 0 <= len;
    assert(-len <= v.z as int <= len) by (nonlinear_arith)
        requires v.z * v.z <= n, n < (len + 1) * (len + 1), 0 <= len;
    lemma_abs_mul_le(v.x as int, SCALE as int, len, SCALE as int);
    lemma_abs_mul_le(v.y as int, SCALE as int, len, SCALE as int);
    lemma_abs_mul_le(v.z as int, SCALE as int, len, SCALE as int);
    lemma_tdiv_le(v.x * (SCALE as int), len, SCALE as int);
    lemma_tdiv_le(v.y * (SCALE as int), len, SCALE as int);
    lemma_tdiv_le(v.z * (SCALE as int), len, SCALE as int);
}

/// Bounds on the operands bound a dot product: if both vectors' components
/// stay within `ca` and `cb` and `3 * ca * cb <= c * SCALE`, the dot
/// product stays within `c`.
pub proof fn lemma_dot_le(a: Vec3D, b: Vec3D, ca: int, cb: int, c: int)
    requires
        a.bounded(ca),
        b.bounded(cb),
        0 <= ca,
        0 <= cb,
        0 <= c,
        3 * ca * cb <= c * (SCALE as int),
    ensures
        -c <= dot_spec(a, b) <= c,
        -(ca * cb) <= a.x * b.x <= ca * cb,
        -(ca * cb) <= a.y * b.y <= ca * cb,
        -(ca * cb) <= a.z * b.z <= ca * cb,
{
    lemma_abs_mul_le(a.x as int, b.x as int, ca, cb);
    lemma_abs_mul_le(a.y as int, b.y as int, ca, cb);
    lemma_abs_mul_le(a.z as int, b.z as int, ca, cb);
    assert(3 * (ca * cb) <= c * (SCALE as int)) by (nonlinear_arith)
        requires 3 * ca * cb <= c * (SCALE as int);
    lemma_tdiv_le(a.x * b.x + a.y * b.y + a.z * b.z, SCALE as int, c);
}

impl Vec3D {
    /// Holds when every component's magnitude is at most `b`.
    pub open spec fn bounded(self, b: int) -> bool {
        &&& -b <= self.x <= b
        &&& -b <= self.y <= b
        &&& -b <= self.z <= b
    }

    /// Holds when the vector is a legal scene coordinate.
    pub open spec fn in_coord_range(self) -> bool {
        self.bounded(COORD_MAX as int)
    }

    /// Componentwise approximate equality under the shared tolerance.
    pub open spec fn eq_approx(self, other: Vec3D) -> bool {
        &&& eps_eq(self.x as int, other.x as int)
        &&& eps_eq(self.y as int, other.y as int)
        &&& eps_eq(self.z as int, other.z as int)
    }

    pub fn new(x: i64, y: i64, z: i64) -> (r: Self)
        ensures
            r == (Vec3D { x, y, z }),
    {
        Vec3D { x, y, z }
    }

    /// The vector with the same value in all three components.
    pub fn triple(xyz: i64) -> (r: Self)
        ensures
            r == (Vec3D { x: xyz, y: xyz, z: xyz }),
    {
        Vec3D { x: xyz, y: xyz, z: xyz }
    }

    /// Componentwise sum.
    pub fn add(self, rhs: Self) -> (r: Self)
        requires
            i64::MIN <= self.x + rhs.x <= i64::MAX,
            i64::MIN <= self.y + rhs.y <= i64::MAX,
            i64::MIN <= self.z + rhs.z <= i64::MAX,
        ensures
            r == vadd_spec(self, rhs),
            r.x == self.x + rhs.x,
            r.y == self.y + rhs.y,
            r.z == self.z + rhs.z,
    {
        Vec3D { x: self.x + rhs.x, y: self.y + rhs.y, z: self.z + rhs.z }
    }

    /// Componentwise difference.
    pub fn sub(self, rhs: Self) -> (r: Self)
        requires
            i64::MIN <= self.x - rhs.x <= i64::MAX,
            i64::MIN <= self.y - rhs.y <= i64::MAX,
            i64::MIN <= self.z - rhs.z <= i64::MAX,
        ensures
            r == vsub_spec(self, rhs),
            r.x == self.x - rhs.x,
            r.y == self.y - rhs.y,
            r.z == self.z - rhs.z,
    {
        Vec3D { x: self.x - rhs.x, y: self.y - rhs.y, z: self.z - rhs.z }
    }

    /// Scaling by a fixed-point factor.
    pub fn mul(self, rhs: i64) -> (r: Self)
        requires
            i64::MIN <= fmul(self.x as int, rhs as int) <= i64::MAX,
            i64::MIN <= fmul(self.y as int, rhs as int) <= i64::MAX,
            i64::MIN <= fmul(self.z as int, rhs as int) <= i64::MAX,
        ensures
            r.x as int == fmul(self.x as int, rhs as int),
            r.y as int == fmul(self.y as int, rhs as int),
            r.z as int == fmul(self.z as int, rhs as int),
    {
        Vec3D {
            x: mul_fixed(self.x, rhs),
            y: mul_fixed(self.y, rhs),
            z: mul_fixed(self.z, rhs),
        }
    }

    /// Division by a fixed-point factor.
    pub fn div(self, rhs: i64) -> (r: Self)
        requires
            rhs != 0,
            i64::MIN <= fdiv(self.x as int, rhs as int) <= i64::MAX,
            i64::MIN <= fdiv(self.y as int, rhs as int) <= i64::MAX,
            i64::MIN <= fdiv(self.z as int, rhs as int) <= i64::MAX,
        ensures
            r.x as int == fdiv(self.x as int, rhs as int),
            r.y as int == fdiv(self.y as int, rhs as int),
            r.z as int == fdiv(self.z as int, rhs as int),
    {
        Vec3D {
            x: div_fixed(self.x, rhs),
            y: div_fixed(self.y, rhs),
            z: div_fixed(self.z, rhs),
        }
    }

    /// Componentwise product of two vectors.
    pub fn mul_each(self, rhs: Self) -> (r: Self)
        requires
            i64::MIN <= fmul(self.x as int, rhs.x as int) <= i64::MAX,
            i64::MIN <= fmul(self.y as int, rhs.y as int) <= i64::MAX,
            i64::MIN <= fmul(self.z as int, rhs.z as int) <= i64::MAX,
        ensures
            r.x as int == fmul(self.x as int, rhs.x as int),
            r.y as int == fmul(self.y as int, rhs.y as int),
            r.z as int == fmul(self.z as int, rhs.z as int),
    {
        Vec3D {
            x: mul_fixed(self.x, rhs.x),
            y: mul_fixed(self.y, rhs.y),
            z: mul_fixed(self.z, rhs.z),
        }
    }

    /// Componentwise quotient of two vectors.
    pub fn div_each(self, rhs: Self) -> (r: Self)
        requires
            rhs.x != 0,
            rhs.y != 0,
            rhs.z != 0,
            i64::MIN <= fdiv(self.x as int, rhs.x as int) <= i64::MAX,
            i64::MIN <= fdiv(self.y as int, rhs.y as int) <= i64::MAX,
            i64::MIN <= fdiv(self.z as int, rhs.z as int) <= i64::MAX,
        ensures
            r.x as int == fdiv(self.x as int, rhs.x as int),
            r.y as int == fdiv(self.y as int, rhs.y as int),
            r.z as int == fdiv(self.z as int, rhs.z as int),
    {
        Vec3D {
            x: div_fixed(self.x, rhs.x),
            y: div_fixed(self.y, rhs.y),
            z: div_fixed(self.z, rhs.z),
        }
    }

    /// Componentwise negation.
    pub fn neg(self) -> (r: Self)
        requires
            self.x > i64::MIN,
            self.y > i64::MIN,
            self.z > i64::MIN,
        ensures
            r.x == -self.x,
            r.y == -self.y,
            r.z == -self.z,
    {
        Vec3D { x: -self.x, y: -self.y, z: -self.z }
    }

    /// Scalar product of two vectors.
    pub fn dot(self, rhs: Self) -> (r: i64)
        requires
            self.bounded(VEC_MAX as int),
            rhs.bounded(VEC_MAX as int),
        ensures
            r as int == dot_spec(self, rhs),
    {
        proof {
            lemma_dot_le(
                self,
                rhs,
                VEC_MAX as int,
                VEC_MAX as int,
                480_000_000_000_000_000,
            );
        }
        let n: i128 = (self.x as i128) * (rhs.x as i128) + (self.y as i128) * (rhs.y as i128) + (
        self.z as i128) * (rhs.z as i128);
        let q: i128 = tdiv_i128(n, SCALE as i128);
        q as i64
    }

    /// Cross product of two vectors.
    pub fn cross(self, rhs: Self) -> (r: Self)
        requires
            self.bounded(VEC_MAX as int),
            rhs.bounded(VEC_MAX as int),
        ensures
            r == cross_spec(self, rhs),
            r.x as int == tdiv(self.y * rhs.z - self.z * rhs.y, SCALE as int),
            r.y as int == tdiv(self.z * rhs.x - self.x * rhs.z, SCALE as int),
            r.z as int == tdiv(self.x * rhs.y - self.y * rhs.x, SCALE as int),
            r.bounded(320_000_000_000_000_000),
    {
        let x = Self::cross_part(self.y, rhs.z, self.z, rhs.y);
        let y = Self::cross_part(self.z, rhs.x, self.x, rhs.z);
        let z = Self::cross_part(self.x, rhs.y, self.y, rhs.x);
        Vec3D { x, y, z }
    }

    /// One component of a cross product: `(a * b - c * d) / SCALE`.
    fn cross_part(a: i64, b: i64, c: i64, d: i64) -> (r: i64)
        requires
            -(VEC_MAX as int) <= a <= VEC_MAX as int,
            -(VEC_MAX as int) <= b <= VEC_MAX as int,
            -(VEC_MAX as int) <= c <= VEC_MAX as int,
            -(VEC_MAX as int) <= d <= VEC_MAX as int,
        ensures
            r as int == tdiv(a * b - c * d, SCALE as int),
            -320_000_000_000_000_000 <= r as int <= 320_000_000_000_000_000,
    {
        proof {
            lemma_abs_mul_le(a as int, b as int, VEC_MAX as int, VEC_MAX as int);
            lemma_abs_mul_le(c as int, d as int, VEC_MAX as int, VEC_MAX as int);
            lemma_tdiv_le(a * b - c * d, SCALE as int, 320_000_000_000_000_000);
        }
        let n: i128 = (a as i128) * (b as i128) - (c as i128) * (d as i128);
        let q: i128 = tdiv_i128(n, SCALE as i128);
        q as i64
    }

    /// Euclidean length, computed as one square root of the summed squares
    /// so no intermediate overflows.
    pub fn length(self) -> (r: i64)
        requires
            self.bounded(VEC_MAX as int),
        ensures
            r as int == length_spec(self),
            is_sqrt_floor(self.x * self.x + self.y * self.y + self.z * self.z, r as int),
            0 <= r as int <= 700_000_000_000,
    {
        proof {
            lemma_abs_mul_le(self.x as int, self.x as int, VEC_MAX as int, VEC_MAX as int);
            lemma_abs_mul_le(self.y as int, self.y as int, VEC_MAX as int, VEC_MAX as int);
            lemma_abs_mul_le(self.z as int, self.z as int, VEC_MAX as int, VEC_MAX as int);
            assert(self.x * self.x >= 0) by (nonlinear_arith);
            assert(self.y * self.y >= 0) by (nonlinear_arith);
            assert(self.z * self.z >= 0) by (nonlinear_arith);
        }
        let n: i128 = (self.x as i128) * (self.x as i128) + (self.y as i128) * (self.y as i128) + (
        self.z as i128) * (self.z as i128);
        let r: u128 = isqrt(n as u128);
        proof {
            assert(r as int <= 700_000_000_000) by (nonlinear_arith)
                requires
                    0 <= r as int,
                    (r as int) * (r as int) <= 480_000_000_000_000_000_000_000,
            ;
        }
        r as i64
    }

    /// The vector scaled to unit length: each component divided by the
    /// length. The zero vector has no direction, so callers keep degenerate
    /// inputs away.
    pub fn normalise(self) -> (r: Self)
        requires
            self.bounded(VEC_MAX as int),
            length_spec(self) >= 1,
        ensures
            r == normalise_spec(self),
            r.x as int == fdiv(self.x as int, length_spec(self)),
            r.y as int == fdiv(self.y as int, length_spec(self)),
            r.z as int == fdiv(self.z as int, length_spec(self)),
            r.bounded(SCALE as int),
    {
        let len = self.length();
        proof {
            assert(self.x * self.x >= 0) by (nonlinear_arith);
            assert(self.y * self.y >= 0) by (nonlinear_arith);
            assert(self.z * self.z >= 0) by (nonlinear_arith);
            Self::lemma_component_le_length(self.x as int, len as int,
                self.x * self.x + self.y * self.y + self.z * self.z);
            Self::lemma_component_le_length(self.y as int, len as int,
                self.x * self.x + self.y * self.y + self.z * self.z);
            Self::lemma_component_le_length(self.z as int, len as int,
                self.x * self.x + self.y * self.y + self.z * self.z);
            lemma_abs_mul_le(self.x as int, SCALE as int, len as int, SCALE as int);
            lemma_abs_mul_le(self.y as int, SCALE as int, len as int, SCALE as int);
            lemma_abs_mul_le(self.z as int, SCALE as int, len as int, SCALE as int);
            lemma_tdiv_le(self.x * (SCALE as int), len as int, SCALE as int);
            lemma_tdiv_le(self.y * (SCALE as int), len as int, SCALE as int);
            lemma_tdiv_le(self.z * (SCALE as int), len as int, SCALE as int);
        }
        Vec3D { x: div_fixed(self.x, len), y: div_fixed(self.y, len), z: div_fixed(self.z, len) }
    }

    /// No component of a vector is longer than the whole vector.
    proof fn lemma_component_le_length(c: int, len: int, n: int)
        requires
            is_sqrt_floor(n, len),
            c * c <= n,
        ensures
            -len <= c <= len,
    {
        assert(-len <= c <= len) by (nonlinear_arith)
            requires c * c <= n, n < (len + 1) * (len + 1), 0 <= len;
    }

    /// Mirror image across the plane with the given unit normal:
    /// `self - normal * 2 * dot(self, normal)`.
    pub fn reflect(self, plane_normal: Self) -> (r: Self)
        requires
            self.bounded(1_000_000_000),
            plane_normal.bounded(2_000_000),
        ensures
            r == reflect_spec(self, plane_normal),
            r.x as int == self.x - fmul(2 * plane_normal.x, dot_spec(self, plane_normal)),
            r.y as int == self.y - fmul(2 * plane_normal.y, dot_spec(self, plane_normal)),
            r.z as int == self.z - fmul(2 * plane_normal.z, dot_spec(self, plane_normal)),
            r.bounded(25_000_000_000),
    {
        proof {
            lemma_dot_le(self, plane_normal, 1_000_000_000, 2_000_000, 6_000_000_000);
            lemma_fmul_le(2 * plane_normal.x, dot_spec(self, plane_normal), 4_000_000,
                6_000_000_000, 24_000_000_000);
            lemma_fmul_le(2 * plane_normal.y, dot_spec(self, plane_normal), 4_000_000,
                6_000_000_000, 24_000_000_000);
            lemma_fmul_le(2 * plane_normal.z, dot_spec(self, plane_normal), 4_000_000,
                6_000_000_000, 24_000_000_000);
        }
        let d = self.dot(plane_normal);
        let fx = mul_fixed(2 * plane_normal.x, d);
        let fy = mul_fixed(2 * plane_normal.y, d);
        let fz = mul_fixed(2 * plane_normal.z, d);
        Vec3D { x: self.x - fx, y: self.y - fy, z: self.z - fz }
    }

    /// Componentwise approximate equality, usable where `==` cannot be.
    pub fn approx(self, other: Self) -> (r: bool)
        ensures
            r == self.eq_approx(other),
    {
        approx_eq(self.x, other.x) && approx_eq(self.y, other.y) && approx_eq(self.z, other.z)
    }
}

impl PartialEq for Vec3D {
    /// Equality of vectors is approximate: components may differ by up to
    /// the shared tolerance.
    fn eq(&self, other: &Self) -> (r: bool) {
        approx_eq(self.x, other.x) && approx_eq(self.y, other.y) && approx_eq(self.z, other.z)
    }
}

impl vstd::std_specs::cmp::PartialEqSpecImpl for Vec3D {
    open spec fn obeys_eq_spec() -> bool {
        true
    }

    open spec fn eq_spec(&self, other: &Vec3D) -> bool {
        self.eq_approx(*other)
    }
}

impl From<crate::quaternion::Quaternion> for Vec3D {
    /// The vector part of a quaternion.
    fn from(value: crate::quaternion::Quaternion) -> (r: Self) {
        Vec3D { x: value.x, y: value.y, z: value.z }
    }
}

impl vstd::std_specs::convert::FromSpecImpl<crate::quaternion::Quaternion> for Vec3D {
    open spec fn obeys_from_spec() -> bool {
        true
    }

    open spec fn from_spec(value: crate::quaternion::Quaternion) -> Vec3D {
        Vec3D { x: value.x, y: value.y, z: value.z }
    }
}

impl From<[i64; 3]> for Vec3D {
    /// A vector from its three components in order.
    fn from(value: [i64; 3]) -> (r: Self) {
        Vec3D { x: value[0], y: value[1], z: value[2] }
    }
}

impl vstd::std_specs::convert::FromSpecImpl<[i64; 3]> for Vec3D {
    open spec fn obeys_from_spec() -> bool {
        true
    }

    open spec fn from_spec(value: [i64; 3]) -> Vec3D {
        Vec3D { x: value[0], y: value[1], z: value[2] }
    }
}

impl From<Vec3D> for [i64; 3] {
    /// The components of a vector in order.
    fn from(value: Vec3D) -> (r: Self) {
        [value.x, value.y, value.z]
    }
}

impl vstd::std_specs::convert::FromSpecImpl<Vec3D> for [i64; 3] {
    open spec fn obeys_from_spec() -> bool {
        true
    }

    open spec fn from_spec(value: Vec3D) -> [i64; 3] {
        [value.x, value.y, value.z]
    }
}

impl Default for Vec3D {
    /// The zero vector.
    fn default() -> (r: Self)
        ensures
            r == (Vec3D { x: 0i64, y: 0i64, z: 0i64 }),
    {
        Vec3D { x: 0, y: 0, z: 0 }
    }
}

} // verus!
