use vstd::prelude::*;
use crate::colour::Colour;
use crate::constants::{COORD_MAX, SCALE};
use crate::material::Material;
use crate::math::{
    fmul, isqrt, lemma_abs_mul_le, lemma_fmul_le, lemma_sqrt_floor_exists,
    lemma_sqrt_floor_unique, lemma_tdiv_le, mul_fixed, sqrt_floor, tdiv, tdiv_i128,
};
use crate::physics::{Intersection, Object};
use crate::ray::Ray;
use crate::vector::{dot_spec, length_spec, lemma_dot_le, normalise_spec, vsub_spec, Vec3D};

verus! {

/// First quadratic coefficient of the intersection equation: the ray
/// direction dotted with itself.
pub open spec fn a_coef(ray: Ray) -> int {
    dot_spec(ray.direction, ray.direction)
}

/// The ray origin relative to the sphere's centre.
pub open spec fn oc_spec(s: Sphere, ray: Ray) -> Vec3D {
    vsub_spec(ray.origin, s.centre)
}

/// Second quadratic coefficient: twice the offset dotted with the
/// direction.
pub open spec fn b_coef(s: Sphere, ray: Ray) -> int {
    2 * dot_spec(oc_spec(s, ray), ray.direction)
}

/// Third quadratic coefficient: the offset's squared length less the
/// squared radius. Negative exactly when the ray starts inside the sphere.
pub open spec fn c_coef(s: Sphere, ray: Ray) -> int {
    dot_spec(oc_spec(s, ray), oc_spec(s, ray)) - fmul(s.radius as int, s.radius as int)
}

/// Discriminant of the intersection equation; negative means a miss.
pub open spec fn discriminant(s: Sphere, ray: Ray) -> int {
    b_coef(s, ray) * b_coef(s, ray) - 4 * a_coef(ray) * c_coef(s, ray)
}

/// The nearer of the two quadratic roots, as a fixed-point ray parameter.
pub open spec fn root_low(s: Sphere, ray: Ray) -> int {
    let sr = sqrt_floor(discriminant(s, ray));
    let u1 = tdiv((SCALE as int) * (-b_coef(s, ray) - sr), 2 * a_coef(ray));
    let u2 = tdiv((SCALE as int) * (-b_coef(s, ray) + sr), 2 * a_coef(ray));
    if u1 <= u2 {
        u1
    } else {
        u2
    }
}

/// The farther of the two quadratic roots.
pub open spec fn root_high(s: Sphere, ray: Ray) -> int {
    let sr = sqrt_floor(discriminant(s, ray));
    let u1 = tdiv((SCALE as int) * (-b_coef(s, ray) - sr), 2 * a_coef(ray));
    let u2 = tdiv((SCALE as int) * (-b_coef(s, ray) + sr), 2 * a_coef(ray));
    if u1 <= u2 {
        u2
    } else {
        u1
    }
}

/// The point the ray reaches at parameter `t`.
pub open spec fn hit_pos(ray: Ray, t: int) -> Vec3D {
    Vec3D {
        x: (ray.origin.x + tdiv(ray.direction.x * t, SCALE as int)) as i64,
        y: (ray.origin.y + tdiv(ray.direction.y * t, SCALE as int)) as i64,
        z: (ray.origin.z + tdiv(ray.direction.z * t, SCALE as int)) as i64,
    }
}

/// Holds when the point at parameter `t` stays inside the scene range.
pub open spec fn pos_in_range(ray: Ray, t: int) -> bool {
    &&& -(COORD_MAX as int) <= ray.origin.x + tdiv(ray.direction.x * t, SCALE as int)
        <= COORD_MAX as int
    &&& -(COORD_MAX as int) <= ray.origin.y + tdiv(ray.direction.y * t, SCALE as int)
        <= COORD_MAX as int
    &&& -(COORD_MAX as int) <= ray.origin.z + tdiv(ray.direction.z * t, SCALE as int)
        <= COORD_MAX as int
}

/// Holds when the root `t` yields a hit that is counted: in front of the
/// origin, inside the scene range, and far enough from the centre for an
/// outward normal to exist. Roots at or behind the origin are never
/// counted; the two range conditions are the fixed-point analogue of
/// discarding non-finite results.
pub open spec fn root_valid(s: Sphere, ray: Ray, t: int) -> bool {
    &&& t > 0
    &&& pos_in_range(ray, t)
    &&& length_spec(vsub_spec(hit_pos(ray, t), s.centre)) >= 1
}

/// The intersection record for the root `t`: position on the surface,
/// true Euclidean distance from the ray origin (not the raw parameter, so
/// direction scale does not matter), and the outward unit normal.
pub open spec fn hit_at(s: Sphere, ray: Ray, t: int) -> Intersection {
    let p = hit_pos(ray, t);
    Intersection {
        position: p,
        distance: length_spec(vsub_spec(p, ray.origin)) as i64,
        normal: normalise_spec(vsub_spec(p, s.centre)),
        object: Object::Sphere(s),
        ray: ray,
    }
}

/// Everything `intersections` returns: nothing for a negative
/// discriminant; otherwise the valid roots in ascending parameter order,
/// with the farther hit dropped when it lands at (approximately) the same
/// point as the nearer one — the tangent case.
pub open spec fn sphere_hits(s: Sphere, ray: Ray) -> Seq<Intersection> {
    if discriminant(s, ray) < 0 {
        Seq::empty()
    } else {
        let tl = root_low(s, ray);
        let th = root_high(s, ray);
        let v1 = root_valid(s, ray, tl);
        let v2 = root_valid(s, ray, th);
        let dup = hit_pos(ray, th).eq_approx(hit_pos(ray, tl));
        if v1 && v2 && !dup {
            seq![hit_at(s, ray, tl), hit_at(s, ray, th)]
        } else if v1 {
            seq![hit_at(s, ray, tl)]
        } else if v2 {
            seq![hit_at(s, ray, th)]
        } else {
            Seq::empty()
        }
    }
}

/// A sphere: centre, radius and surface material. The only analytic
/// primitive of the scene model.
#[derive(Clone, Copy, Debug)]
pub struct Sphere {
    pub centre: Vec3D,
    pub radius: i64,
    pub material: Material,
}

/// A tangent ray meets the sphere in exactly one point: when the
/// discriminant vanishes the two roots coincide, and the deduplication of
/// coinciding hit points leaves a single intersection.
pub proof fn lemma_tangent_single_hit(s: Sphere, ray: Ray)
    requires
        s.wf(),
        ray.origin.in_coord_range(),
        ray.direction.in_coord_range(),
        a_coef(ray) >= 1,
        discriminant(s, ray) == 0,
        root_valid(s, ray, root_high(s, ray)),
    ensures
        sphere_hits(s, ray).len() == 1,
        sphere_hits(s, ray)[0] == hit_at(s, ray, root_high(s, ray)),
        root_low(s, ray) == root_high(s, ray),
{
    lemma_sqrt_floor_unique(0, 0);
}

/// A ray starting inside the sphere reports exactly one intersection, the
/// exit point: the nearer root lies at or behind the origin and is never
/// counted.
pub proof fn lemma_inside_single_exit(s: Sphere, ray: Ray)
    requires
        s.wf(),
        ray.origin.in_coord_range(),
        ray.direction.in_coord_range(),
        a_coef(ray) >= 1,
        c_coef(s, ray) < 0,
        root_valid(s, ray, root_high(s, ray)),
    ensures
        sphere_hits(s, ray).len() == 1,
        sphere_hits(s, ray)[0] == hit_at(s, ray, root_high(s, ray)),
        root_low(s, ray) <= 0,
{
    let a = a_coef(ray);
    let b = b_coef(s, ray);
    let c = c_coef(s, ray);
    let disc = discriminant(s, ray);
    assert(b * b <= disc) by (nonlinear_arith)
        requires a >= 1, c <= -1, disc == b * b - 4 * a * c;
    assert(disc >= 0) by (nonlinear_arith)
        requires b * b <= disc;
    lemma_sqrt_floor_exists(disc);
    let sr = sqrt_floor(disc);
    assert(-sr <= b <= sr) by (nonlinear_arith)
        requires b * b <= disc, disc < (sr + 1) * (sr + 1), 0 <= sr;
    assert((SCALE as int) * (-b - sr) <= 0) by (nonlinear_arith)
        requires -b - sr <= 0;
    crate::math::lemma_tdiv_nonpos((SCALE as int) * (-b - sr), 2 * a);
}

/// A valid root's hit record is well formed: its position, normal and
/// distance stay inside the ranges the shading arithmetic asks for.
pub proof fn lemma_hit_at_wf(s: Sphere, ray: Ray, t: int)
    requires
        s.wf(),
        ray.origin.in_coord_range(),
        ray.direction.in_coord_range(),
        root_valid(s, ray, t),
    ensures
        crate::physics::hit_wf(hit_at(s, ray, t)),
        hit_at(s, ray, t).object == Object::Sphere(s),
{
    let p = hit_pos(ray, t);
    let off = vsub_spec(p, s.centre);
    crate::vector::lemma_normalise_spec_bounded(off);
    crate::vector::lemma_length_spec_bound(vsub_spec(p, ray.origin), 200_000_000_000,
        400_000_000_000);
}

/// Every hit the solver reports is well formed and carries this sphere.
pub proof fn lemma_sphere_hits_wf(s: Sphere, ray: Ray)
    requires
        s.wf(),
        ray.origin.in_coord_range(),
        ray.direction.in_coord_range(),
    ensures
        forall|k: int|
            0 <= k < sphere_hits(s, ray).len() ==> crate::physics::hit_wf(
                #[trigger] sphere_hits(s, ray)[k],
            ) && sphere_hits(s, ray)[k].object == Object::Sphere(s),
{
    if discriminant(s, ray) >= 0 {
        let tl = root_low(s, ray);
        let th = root_high(s, ray);
        if root_valid(s, ray, tl) {
            lemma_hit_at_wf(s, ray, tl);
        }
        if root_valid(s, ray, th) {
            lemma_hit_at_wf(s, ray, th);
        }
    }
}

impl Sphere {
    /// What equality of spheres means: approximate centre, exact radius
    /// and exact material.
    pub open spec fn eq_approx(self, other: Sphere) -> bool {
        self.centre.eq_approx(other.centre) && self.radius == other.radius && self.material
            == other.material
    }

    /// A well-formed sphere: centre inside the scene range, radius
    /// non-negative and bounded, material channels in the unit range.
    pub open spec fn wf(self) -> bool {
        &&& self.centre.in_coord_range()
        &&& 0 <= self.radius <= COORD_MAX
        &&& self.material.wf()
    }

    pub fn new(centre: Vec3D, radius: i64, material: Material) -> (r: Self)
        ensures
            r == (Sphere { centre, radius, material }),
    {
        Sphere { centre, radius, material }
    }

    /// The unit sphere at the origin with the given material.
    pub fn unit(material: Material) -> (r: Self)
        ensures
            r == (Sphere {
                centre: Vec3D { x: 0i64, y: 0i64, z: 0i64 },
                radius: SCALE,
                material,
            }),
            material.wf() ==> r.wf(),
    {
        Sphere { centre: Vec3D { x: 0, y: 0, z: 0 }, radius: SCALE, material }
    }

    /// All intersections of the ray with this sphere: none, one (tangent,
    /// or starting inside) or two (entry and exit), by solving the
    /// quadratic `a t^2 + b t + c = 0` exactly over fixed-point values.
    /// The direction must carry at least one step of squared motion
    /// (`a_coef`): a direction that short is degenerate, and callers keep
    /// degenerate inputs away.
    pub fn intersections(&self, ray: &Ray) -> (r: Vec<Intersection>)
        requires
            self.wf(),
            ray.origin.in_coord_range(),
            ray.direction.in_coord_range(),
            a_coef(*ray) >= 1,
        ensures
            r@ == sphere_hits(*self, *ray),
            discriminant(*self, *ray) < 0 ==> r@.len() == 0,
            r@.len() <= 2,
    {
        let oc = ray.origin.sub(self.centre);
        proof {
            lemma_dot_le(ray.direction, ray.direction, COORD_MAX as int, COORD_MAX as int,
                30_000_000_000_000_000);
            lemma_dot_le(oc, ray.direction, 200_000_000_000, COORD_MAX as int,
                60_000_000_000_000_000);
            lemma_dot_le(oc, oc, 200_000_000_000, 200_000_000_000, 120_000_000_000_000_000);
            lemma_fmul_le(self.radius as int, self.radius as int, COORD_MAX as int,
                COORD_MAX as int, 10_000_000_000_000_000);
        }
        let a = ray.direction.dot(ray.direction);
        let b = 2 * oc.dot(ray.direction);
        let c = oc.dot(oc) - mul_fixed(self.radius, self.radius);
        proof {
            lemma_abs_mul_le(b as int, b as int, 120_000_000_000_000_000, 120_000_000_000_000_000);
            lemma_abs_mul_le(a as int, c as int, 30_000_000_000_000_000, 130_000_000_000_000_000);
        }
        let ac: i128 = (a as i128) * (c as i128);
        let disc: i128 = (b as i128) * (b as i128) - 4 * ac;
        proof {
            assert(4 * a_coef(*ray) * c_coef(*self, *ray) == 4 * (a_coef(*ray) * c_coef(
                *self,
                *ray,
            ))) by (nonlinear_arith);
            assert(disc as int == discriminant(*self, *ray));
        }
        if disc < 0 {
            let r: Vec<Intersection> = Vec::new();
            return r;
        }
        let sr: u128 = isqrt(disc as u128);
        proof {
            assert(sr as int <= 180_000_000_000_000_000) by (nonlinear_arith)
                requires
                    0 <= sr as int,
                    (sr as int) * (sr as int)
                        <= 30_000_000_000_000_000_000_000_000_000_000_000,
            ;
        }
        let num1: i128 = -(b as i128) - sr as i128;
        let num2: i128 = -(b as i128) + sr as i128;
        proof {
            lemma_abs_mul_le(num1 as int, SCALE as int, 300_000_000_000_000_000, SCALE as int);
            lemma_abs_mul_le(num2 as int, SCALE as int, 300_000_000_000_000_000, SCALE as int);
            assert(300_000_000_000_000_000_000_000 * (2 * a as int)
                >= 600_000_000_000_000_000_000_000) by (nonlinear_arith)
                requires a as int >= 1;
            lemma_tdiv_le(num1 as int * SCALE as int, 2 * a as int,
                300_000_000_000_000_000_000_000);
            lemma_tdiv_le(num2 as int * SCALE as int, 2 * a as int,
                300_000_000_000_000_000_000_000);
        }
        let t1: i128 = tdiv_i128(num1 * SCALE as i128, 2 * a as i128);
        let t2: i128 = tdiv_i128(num2 * SCALE as i128, 2 * a as i128);
        let tlo: i128 = if t1 > t2 {
            t2
        } else {
            t1
        };
        let thi: i128 = if t1 > t2 {
            t1
        } else {
            t2
        };
        proof {
            lemma_sqrt_floor_unique(disc as int, sr as int);
            assert(tlo as int == root_low(*self, *ray));
            assert(thi as int == root_high(*self, *ray));
        }
        let h1 = self.try_hit(ray, tlo);
        let h2 = self.try_hit(ray, thi);
        let mut out: Vec<Intersection> = Vec::new();
        match (h1, h2) {
            (Some(i1), Some(i2)) => {
                out.push(i1);
                if !i2.position.approx(i1.position) {
                    out.push(i2);
                    proof {
                        assert(out@ =~= seq![
                            hit_at(*self, *ray, tlo as int),
                            hit_at(*self, *ray, thi as int),
                        ]);
                    }
                } else {
                    proof {
                        assert(out@ =~= seq![hit_at(*self, *ray, tlo as int)]);
                    }
                }
            },
            (Some(i1), None) => {
                out.push(i1);
                proof {
                    assert(out@ =~= seq![hit_at(*self, *ray, tlo as int)]);
                }
            },
            (None, Some(i2)) => {
                out.push(i2);
                proof {
                    assert(out@ =~= seq![hit_at(*self, *ray, thi as int)]);
                }
            },
            (None, None) => {
            },
        }
        out
    }

    /// Builds the intersection record for one root, or nothing where the
    /// root is behind the origin, out of the scene range, or degenerate.
    fn try_hit(&self, ray: &Ray, t: i128) -> (r: Option<Intersection>)
        requires
            self.wf(),
            ray.origin.in_coord_range(),
            ray.direction.in_coord_range(),
            -300_000_000_000_000_000_000_000 <= t as int <= 300_000_000_000_000_000_000_000,
        ensures
            r == (if root_valid(*self, *ray, t as int) {
                Some(hit_at(*self, *ray, t as int))
            } else {
                None::<Intersection>
            }),
    {
        if t <= 0 {
            return None;
        }
        proof {
            lemma_abs_mul_le(ray.direction.x as int, t as int, COORD_MAX as int,
                300_000_000_000_000_000_000_000);
            lemma_abs_mul_le(ray.direction.y as int, t as int, COORD_MAX as int,
                300_000_000_000_000_000_000_000);
            lemma_abs_mul_le(ray.direction.z as int, t as int, COORD_MAX as int,
                300_000_000_000_000_000_000_000);
            lemma_tdiv_le(ray.direction.x as int * t as int, SCALE as int,
                30_000_000_000_000_000_000_000_000_000);
            lemma_tdiv_le(ray.direction.y as int * t as int, SCALE as int,
                30_000_000_000_000_000_000_000_000_000);
            lemma_tdiv_le(ray.direction.z as int * t as int, SCALE as int,
                30_000_000_000_000_000_000_000_000_000);
        }
        let px: i128 = ray.origin.x as i128 + tdiv_i128(ray.direction.x as i128 * t,
            SCALE as i128);
        let py: i128 = ray.origin.y as i128 + tdiv_i128(ray.direction.y as i128 * t,
            SCALE as i128);
        let pz: i128 = ray.origin.z as i128 + tdiv_i128(ray.direction.z as i128 * t,
            SCALE as i128);
        let cm: i128 = COORD_MAX as i128;
        if px < -cm || px > cm || py < -cm || py > cm || pz < -cm || pz > cm {
            return None;
        }
        let position = Vec3D { x: px as i64, y: py as i64, z: pz as i64 };
        proof {
            assert(position == hit_pos(*ray, t as int));
        }
        let off = position.sub(self.centre);
        let ol = off.length();
        if ol == 0 {
            return None;
        }
        let normal = off.normalise();
        let od = position.sub(ray.origin);
        let dist = od.length();
        Some(
            Intersection {
                position,
                distance: dist,
                normal,
                object: Object::Sphere(*self),
                ray: *ray,
            },
        )
    }

    /// The characteristic extent of the shape: its diameter.
    pub fn extent(&self) -> (r: i64)
        requires
            self.wf(),
        ensures
            r == 2 * self.radius,
    {
        2 * self.radius
    }

    /// The centre point of the shape.
    pub fn centre(&self) -> (r: Vec3D)
        ensures
            r == self.centre,
    {
        self.centre
    }

    /// The surface material.
    pub fn material(&self) -> (r: Material)
        ensures
            r == self.material,
    {
        self.material
    }

    /// The material's diffuse colour.
    pub fn diffuse_colour(&self) -> (r: Colour)
        ensures
            r == self.material.diffuse_colour,
    {
        self.material.diffuse_colour
    }
}

impl PartialEq for Sphere {
    /// Spheres compare by approximate centre, exact radius and exact
    /// material: a stable identity for deduplicating intersections.
    fn eq(&self, other: &Self) -> (r: bool) {
        self.centre.approx(other.centre) && self.radius == other.radius && self.material
            == other.material
    }
}

impl vstd::std_specs::cmp::PartialEqSpecImpl for Sphere {
    open spec fn obeys_eq_spec() -> bool {
        true
    }

    open spec fn eq_spec(&self, other: &Sphere) -> bool {
        self.eq_approx(*other)
    }
}

impl Default for Sphere {
    /// The unit sphere at the origin, with the default material.
    fn default() -> (r: Self)
        ensures
            r == (Sphere {
                centre: Vec3D { x: 0i64, y: 0i64, z: 0i64 },
                radius: SCALE,
                material: Material {
                    diffuse_colour: Colour { red: 0i64, green: 0i64, blue: 0i64 },
                    specular_exponent: 0u32,
                    albedo_specular: 0i64,
                    albedo_diffuse: 0i64,
                },
            }),
            r.wf(),
    {
        Sphere {
            centre: Vec3D { x: 0, y: 0, z: 0 },
            radius: SCALE,
            material: Material::default(),
        }
    }
}

} // verus!
