use vstd::prelude::*;
use crate::constants::{COORD_MAX, SCALE, VEC_MAX};
use crate::math::{
    approx_eq, eps_eq, fmul, is_sqrt_floor, isqrt, lemma_abs_mul_le, lemma_fmul_le,
    lemma_tdiv_le, mul_fixed, sqrt_floor, tdiv, tdiv_i128,
};
use crate::vector::{cross_spec, dot_spec, length_spec, lemma_dot_le, normalise_spec, Vec3D};

verus! {

/// A rotation as a unit quaternion in fixed-point components: `w` the
/// scalar part, `x`, `y`, `z` the vector part.
#[derive(Clone, Copy, Debug)]
pub struct Quaternion {
    pub w: i64,
    pub x: i64,
    pub y: i64,
    pub z: i64,
}

/// The rotation that leaves every vector in place.
pub open spec fn identity_spec() -> Quaternion {
    Quaternion { w: SCALE, x: 0i64, y: 0i64, z: 0i64 }
}

/// What `from_axis_angle` returns: the axis is normalised, the scalar part
/// is the half-angle's cosine and the vector part the normalised axis
/// scaled by the half-angle's sine.
pub open spec fn axis_angle_spec(axis: Vec3D, cos_half: i64, sin_half: i64) -> Quaternion {
    let n = normalise_spec(axis);
    Quaternion {
        w: cos_half,
        x: fmul(n.x as int, sin_half as int) as i64,
        y: fmul(n.y as int, sin_half as int) as i64,
        z: fmul(n.z as int, sin_half as int) as i64,
    }
}

/// A dot product of unit vectors pushed back into the unit range before a
/// half-angle is taken from it; rounding can leave it a few steps outside.
pub open spec fn clamp_unit(d: int) -> int {
    if d < -(SCALE as int) {
        -(SCALE as int)
    } else if d > SCALE as int {
        SCALE as int
    } else {
        d
    }
}

/// Cosine of the half angle, from the full angle's cosine `d` by the
/// half-angle identity `cos(a/2) = sqrt((1 + cos a) / 2)`.
pub open spec fn half_cos_spec(d: int) -> int {
    sqrt_floor(tdiv((SCALE as int + clamp_unit(d)) * SCALE as int, 2))
}

/// Sine of the half angle, from the full angle's cosine `d` by the
/// half-angle identity `sin(a/2) = sqrt((1 - cos a) / 2)`.
pub open spec fn half_sin_spec(d: int) -> int {
    sqrt_floor(tdiv((SCALE as int - clamp_unit(d)) * SCALE as int, 2))
}

/// The vector part of a quaternion.
pub open spec fn vector_part(q: Quaternion) -> Vec3D {
    Vec3D { x: q.x, y: q.y, z: q.z }
}

/// What `rotate_vector` returns: the sandwich product written without a
/// matrix, `v + w * (2 * qv x v) + qv x (2 * qv x v)`.
pub open spec fn rotate_vector_spec(q: Quaternion, v: Vec3D) -> Vec3D {
    let c1 = cross_spec(vector_part(q), v);
    let t = Vec3D { x: (2 * c1.x) as i64, y: (2 * c1.y) as i64, z: (2 * c1.z) as i64 };
    let c2 = cross_spec(vector_part(q), t);
    Vec3D {
        x: (v.x + fmul(q.w as int, t.x as int) + c2.x) as i64,
        y: (v.y + fmul(q.w as int, t.y as int) + c2.y) as i64,
        z: (v.z + fmul(q.w as int, t.z as int) + c2.z) as i64,
    }
}

/// What `mul` returns: the Hamilton product of two quaternions.
pub open spec fn hamilton_spec(a: Quaternion, b: Quaternion) -> Quaternion {
    Quaternion {
        w: (fmul(a.w as int, b.w as int) - fmul(a.x as int, b.x as int) - fmul(
            a.y as int,
            b.y as int,
        ) - fmul(a.z as int, b.z as int)) as i64,
        x: (fmul(a.w as int, b.x as int) + fmul(a.x as int, b.w as int) + fmul(
            a.y as int,
            b.z as int,
        ) - fmul(a.z as int, b.y as int)) as i64,
        y: (fmul(a.w as int, b.y as int) - fmul(a.x as int, b.z as int) + fmul(
            a.y as int,
            b.w as int,
        ) + fmul(a.z as int, b.x as int)) as i64,
        z: (fmul(a.w as int, b.z as int) + fmul(a.x as int, b.y as int) - fmul(
            a.y as int,
            b.x as int,
        ) + fmul(a.z as int, b.w as int)) as i64,
    }
}

/// What `rotate` returns: the minimal rotation carrying `from` onto `to`.
/// Near-antiparallel inputs turn half a revolution about `up`; parallel
/// inputs, and inputs whose cross product rounds to nothing, give the
/// identity.
pub open spec fn rotate_spec(from: Vec3D, to: Vec3D, up: Vec3D) -> Quaternion {
    let f = normalise_spec(from);
    let t = normalise_spec(to);
    let d = dot_spec(f, t);
    if eps_eq(d, -(SCALE as int)) {
        axis_angle_spec(up, 0i64, SCALE)
    } else if eps_eq(d, SCALE as int) {
        identity_spec()
    } else {
        let c = cross_spec(f, t);
        if length_spec(c) == 0 {
            identity_spec()
        } else {
            axis_angle_spec(c, half_cos_spec(d) as i64, half_sin_spec(d) as i64)
        }
    }
}

impl Quaternion {
    /// Holds when every component's magnitude is at most `b`.
    pub open spec fn bounded(self, b: int) -> bool {
        &&& -b <= self.w <= b
        &&& -b <= self.x <= b
        &&& -b <= self.y <= b
        &&& -b <= self.z <= b
    }

    /// Componentwise approximate equality under the shared tolerance.
    pub open spec fn eq_approx(self, other: Quaternion) -> bool {
        &&& eps_eq(self.w as int, other.w as int)
        &&& eps_eq(self.x as int, other.x as int)
        &&& eps_eq(self.y as int, other.y as int)
        &&& eps_eq(self.z as int, other.z as int)
    }

    /// The identity rotation.
    pub fn identity() -> (r: Self)
        ensures
            r == identity_spec(),
    {
        Quaternion { w: SCALE, x: 0, y: 0, z: 0 }
    }

    /// The rotation about `axis` whose half angle has the given cosine and
    /// sine (fixed-point, in `-SCALE ..= SCALE`). The axis is normalised
    /// here, so only its direction matters; trigonometry happens outside
    /// the library and comes in as these two plain values.
    pub fn from_axis_angle(axis: Vec3D, cos_half: i64, sin_half: i64) -> (r: Self)
        requires
            axis.bounded(VEC_MAX as int),
            length_spec(axis) >= 1,
            -SCALE <= cos_half <= SCALE,
            -SCALE <= sin_half <= SCALE,
        ensures
            r == axis_angle_spec(axis, cos_half, sin_half),
            r.bounded(SCALE as int),
    {
        let n = axis.normalise();
        proof {
            lemma_fmul_le(n.x as int, sin_half as int, SCALE as int, SCALE as int, SCALE as int);
            lemma_fmul_le(n.y as int, sin_half as int, SCALE as int, SCALE as int, SCALE as int);
            lemma_fmul_le(n.z as int, sin_half as int, SCALE as int, SCALE as int, SCALE as int);
        }
        Quaternion {
            w: cos_half,
            x: mul_fixed(n.x, sin_half),
            y: mul_fixed(n.y, sin_half),
            z: mul_fixed(n.z, sin_half),
        }
    }

    /// The minimal rotation carrying the direction of `from` onto the
    /// direction of `to`, with `up` breaking the tie for near-antiparallel
    /// pairs, whose true axis is undefined.
    pub fn rotate(from: Vec3D, to: Vec3D, up: Vec3D) -> (r: Self)
        requires
            from.bounded(VEC_MAX as int),
            to.bounded(VEC_MAX as int),
            up.bounded(VEC_MAX as int),
            length_spec(from) >= 1,
            length_spec(to) >= 1,
            length_spec(up) >= 1,
        ensures
            r == rotate_spec(from, to, up),
            r.bounded(SCALE as int),
    {
        let f = from.normalise();
        let t = to.normalise();
        let d = f.dot(t);
        proof {
            lemma_dot_le(f, t, SCALE as int, SCALE as int, 3 * SCALE as int);
        }
        if approx_eq(d, -SCALE) {
            Self::from_axis_angle(up, 0, SCALE)
        } else if approx_eq(d, SCALE) {
            Self::identity()
        } else {
            let c = f.cross(t);
            proof {
                lemma_abs_mul_le(f.y as int, t.z as int, SCALE as int, SCALE as int);
                lemma_abs_mul_le(f.z as int, t.y as int, SCALE as int, SCALE as int);
                lemma_abs_mul_le(f.z as int, t.x as int, SCALE as int, SCALE as int);
                lemma_abs_mul_le(f.x as int, t.z as int, SCALE as int, SCALE as int);
                lemma_abs_mul_le(f.x as int, t.y as int, SCALE as int, SCALE as int);
                lemma_abs_mul_le(f.y as int, t.x as int, SCALE as int, SCALE as int);
                lemma_tdiv_le(f.y * t.z - f.z * t.y, SCALE as int, 2 * SCALE as int);
                lemma_tdiv_le(f.z * t.x - f.x * t.z, SCALE as int, 2 * SCALE as int);
                lemma_tdiv_le(f.x * t.y - f.y * t.x, SCALE as int, 2 * SCALE as int);
            }
            let cl = c.length();
            if cl == 0 {
                Self::identity()
            } else {
                let ch = Self::half_root(SCALE + d);
                let sh = Self::half_root(SCALE - d);
                Self::from_axis_angle(c, ch, sh)
            }
        }
    }

    /// `sqrt(u * SCALE / 2)` for `u` in `0 ..= 2 * SCALE`: the square root
    /// in the half-angle identities, already clamped into the unit range.
    fn half_root(u: i64) -> (r: i64)
        requires
            -3 * SCALE as int <= u as int <= 4 * SCALE as int,
        ensures
            r as int == sqrt_floor(tdiv(clamp_unit(u - SCALE as int) * SCALE as int + (
            SCALE as int) * SCALE as int, 2)),
            0 <= r <= SCALE,
    {
        let uc: i64 = if u < 0 {
            0
        } else if u > 2 * SCALE {
            2 * SCALE
        } else {
            u
        };
        let n: i128 = tdiv_i128(uc as i128 * SCALE as i128, 2);
        let root: u128 = isqrt(n as u128);
        proof {
            assert(clamp_unit(u - SCALE as int) * SCALE as int + (SCALE as int) * SCALE as int
                == uc as int * SCALE as int);
            lemma_tdiv_le(uc as int * SCALE as int, 2, 1_000_000_000_000);
            assert(root as int <= SCALE as int) by (nonlinear_arith)
                requires
                    0 <= root as int,
                    (root as int) * (root as int) <= 1_000_000_000_000,
            ;
        }
        root as i64
    }

    /// Rotates a vector by the sandwich product, without building a matrix.
    pub fn rotate_vector(self, v: Vec3D) -> (r: Vec3D)
        requires
            self.bounded(2 * SCALE as int),
            v.bounded(2_000_000_000),
        ensures
            r == rotate_vector_spec(self, v),
            r.bounded(COORD_MAX as int),
    {
        let qv = Vec3D { x: self.x, y: self.y, z: self.z };
        let c1 = qv.cross(v);
        proof {
            Self::lemma_cross_bound(qv, v, 2 * SCALE as int, 2_000_000_000, 8_000_000_000);
        }
        let t = Vec3D { x: 2 * c1.x, y: 2 * c1.y, z: 2 * c1.z };
        let c2 = qv.cross(t);
        proof {
            Self::lemma_cross_bound(qv, t, 2 * SCALE as int, 16_000_000_000, 64_000_000_000);
            lemma_fmul_le(self.w as int, t.x as int, 2 * SCALE as int, 16_000_000_000,
                32_000_000_000);
            lemma_fmul_le(self.w as int, t.y as int, 2 * SCALE as int, 16_000_000_000,
                32_000_000_000);
            lemma_fmul_le(self.w as int, t.z as int, 2 * SCALE as int, 16_000_000_000,
                32_000_000_000);
        }
        let wx = mul_fixed(self.w, t.x);
        let wy = mul_fixed(self.w, t.y);
        let wz = mul_fixed(self.w, t.z);
        Vec3D { x: v.x + wx + c2.x, y: v.y + wy + c2.y, z: v.z + wz + c2.z }
    }

    /// A cross product of vectors bounded by `ca` and `cb` has components
    /// bounded by `c` whenever `2 * ca * cb <= c * SCALE`.
    proof fn lemma_cross_bound(a: Vec3D, b: Vec3D, ca: int, cb: int, c: int)
        requires
            a.bounded(ca),
            b.bounded(cb),
            0 <= ca,
            0 <= cb,
            0 <= c,
            2 * ca * cb <= c * (SCALE as int),
        ensures
            cross_spec(a, b).bounded(c),
    {
        lemma_abs_mul_le(a.y as int, b.z as int, ca, cb);
        lemma_abs_mul_le(a.z as int, b.y as int, ca, cb);
        lemma_abs_mul_le(a.z as int, b.x as int, ca, cb);
        lemma_abs_mul_le(a.x as int, b.z as int, ca, cb);
        lemma_abs_mul_le(a.x as int, b.y as int, ca, cb);
        lemma_abs_mul_le(a.y as int, b.x as int, ca, cb);
        assert(2 * (ca * cb) <= c * (SCALE as int)) by (nonlinear_arith)
            requires 2 * ca * cb <= c * (SCALE as int);
        lemma_tdiv_le(a.y * b.z - a.z * b.y, SCALE as int, c);
        lemma_tdiv_le(a.z * b.x - a.x * b.z, SCALE as int, c);
        lemma_tdiv_le(a.x * b.y - a.y * b.x, SCALE as int, c);
    }

    /// Hamilton product of two rotations: composition, associative but not
    /// commutative.
    pub fn mul(self, rhs: Self) -> (r: Self)
        requires
            self.bounded(2 * SCALE as int),
            rhs.bounded(2 * SCALE as int),
        ensures
            r == hamilton_spec(self, rhs),
            r.bounded(16 * SCALE as int),
    {
        proof {
            Self::lemma_hamilton_terms(self, rhs);
        }
        let w = mul_fixed(self.w, rhs.w) - mul_fixed(self.x, rhs.x) - mul_fixed(self.y, rhs.y)
            - mul_fixed(self.z, rhs.z);
        let x = mul_fixed(self.w, rhs.x) + mul_fixed(self.x, rhs.w) + mul_fixed(self.y, rhs.z)
            - mul_fixed(self.z, rhs.y);
        let y = mul_fixed(self.w, rhs.y) - mul_fixed(self.x, rhs.z) + mul_fixed(self.y, rhs.w)
            + mul_fixed(self.z, rhs.x);
        let z = mul_fixed(self.w, rhs.z) + mul_fixed(self.x, rhs.y) - mul_fixed(self.y, rhs.x)
            + mul_fixed(self.z, rhs.w);
        Quaternion { w, x, y, z }
    }

    /// Every pairwise fixed-point product of two quaternions' components
    /// stays within four units.
    proof fn lemma_hamilton_terms(a: Quaternion, b: Quaternion)
        requires
            a.bounded(2 * SCALE as int),
            b.bounded(2 * SCALE as int),
        ensures
            -4 * SCALE as int <= fmul(a.w as int, b.w as int) <= 4 * SCALE as int,
            -4 * SCALE as int <= fmul(a.w as int, b.x as int) <= 4 * SCALE as int,
            -4 * SCALE as int <= fmul(a.w as int, b.y as int) <= 4 * SCALE as int,
            -4 * SCALE as int <= fmul(a.w as int, b.z as int) <= 4 * SCALE as int,
            -4 * SCALE as int <= fmul(a.x as int, b.w as int) <= 4 * SCALE as int,
            -4 * SCALE as int <= fmul(a.x as int, b.x as int) <= 4 * SCALE as int,
            -4 * SCALE as int <= fmul(a.x as int, b.y as int) <= 4 * SCALE as int,
            -4 * SCALE as int <= fmul(a.x as int, b.z as int) <= 4 * SCALE as int,
            -4 * SCALE as int <= fmul(a.y as int, b.w as int) <= 4 * SCALE as int,
            -4 * SCALE as int <= fmul(a.y as int, b.x as int) <= 4 * SCALE as int,
            -4 * SCALE as int <= fmul(a.y as int, b.y as int) <= 4 * SCALE as int,
            -4 * SCALE as int <= fmul(a.y as int, b.z as int) <= 4 * SCALE as int,
            -4 * SCALE as int <= fmul(a.z as int, b.w as int) <= 4 * SCALE as int,
            -4 * SCALE as int <= fmul(a.z as int, b.x as int) <= 4 * SCALE as int,
            -4 * SCALE as int <= fmul(a.z as int, b.y as int) <= 4 * SCALE as int,
            -4 * SCALE as int <= fmul(a.z as int, b.z as int) <= 4 * SCALE as int,
    {
        let c = 2_000_000int;
        let m = 4_000_000int;
        lemma_fmul_le(a.w as int, b.w as int, c, c, m);
        lemma_fmul_le(a.w as int, b.x as int, c, c, m);
        lemma_fmul_le(a.w as int, b.y as int, c, c, m);
        lemma_fmul_le(a.w as int, b.z as int, c, c, m);
        lemma_fmul_le(a.x as int, b.w as int, c, c, m);
        lemma_fmul_le(a.x as int, b.x as int, c, c, m);
        lemma_fmul_le(a.x as int, b.y as int, c, c, m);
        lemma_fmul_le(a.x as int, b.z as int, c, c, m);
        lemma_fmul_le(a.y as int, b.w as int, c, c, m);
        lemma_fmul_le(a.y as int, b.x as int, c, c, m);
        lemma_fmul_le(a.y as int, b.y as int, c, c, m);
        lemma_fmul_le(a.y as int, b.z as int, c, c, m);
        lemma_fmul_le(a.z as int, b.w as int, c, c, m);
        lemma_fmul_le(a.z as int, b.x as int, c, c, m);
        lemma_fmul_le(a.z as int, b.y as int, c, c, m);
        lemma_fmul_le(a.z as int, b.z as int, c, c, m);
    }
}

/// Composing a rotation with itself doubles its angle and keeps its axis:
/// the self-composition's vector part is the rotation's own vector part
/// scaled by twice the half-angle cosine — the sine double-angle identity,
/// exact even over fixed-point values — and its scalar part is the cosine's
/// square less the vector part's summed squares — the cosine double-angle
/// identity.
pub proof fn lemma_self_composition_doubles_angle(q: Quaternion)
    requires
        q.bounded(2 * SCALE as int),
    ensures
        hamilton_spec(q, q).x as int == 2 * fmul(q.w as int, q.x as int),
        hamilton_spec(q, q).y as int == 2 * fmul(q.w as int, q.y as int),
        hamilton_spec(q, q).z as int == 2 * fmul(q.w as int, q.z as int),
        hamilton_spec(q, q).w as int == fmul(q.w as int, q.w as int) - fmul(
            q.x as int,
            q.x as int,
        ) - fmul(q.y as int, q.y as int) - fmul(q.z as int, q.z as int),
{
    Quaternion::lemma_hamilton_terms(q, q);
    assert(q.y as int * q.z as int == q.z as int * q.y as int) by (nonlinear_arith);
    assert(q.x as int * q.z as int == q.z as int * q.x as int) by (nonlinear_arith);
    assert(q.x as int * q.y as int == q.y as int * q.x as int) by (nonlinear_arith);
    assert(q.w as int * q.x as int == q.x as int * q.w as int) by (nonlinear_arith);
    assert(q.w as int * q.y as int == q.y as int * q.w as int) by (nonlinear_arith);
    assert(q.w as int * q.z as int == q.z as int * q.w as int) by (nonlinear_arith);
}

impl PartialEq for Quaternion {
    /// Rotations compare approximately, component by component.
    fn eq(&self, other: &Self) -> (r: bool) {
        approx_eq(self.w, other.w) && approx_eq(self.x, other.x) && approx_eq(self.y, other.y)
            && approx_eq(self.z, other.z)
    }
}

impl vstd::std_specs::cmp::PartialEqSpecImpl for Quaternion {
    open spec fn obeys_eq_spec() -> bool {
        true
    }

    open spec fn eq_spec(&self, other: &Quaternion) -> bool {
        self.eq_approx(*other)
    }
}

impl Default for Quaternion {
    /// The identity rotation.
    fn default() -> (r: Self)
        ensures
            r == identity_spec(),
    {
        Quaternion { w: SCALE, x: 0, y: 0, z: 0 }
    }
}

} // verus!
