use vstd::prelude::*;
use vstd::arithmetic::div_mod::{
    lemma_div_multiples_vanish, lemma_div_pos_is_pos, lemma_fundamental_div_mod_converse,
    lemma_mod_division_less_than_divisor, lemma_multiply_divide_lt,
};
use crate::camera::{camera_ray_spec, Camera};
use crate::colour::{byte_channel, channel_byte, Colour};
use crate::constants::{BRIGHT_MAX, COORD_MAX, SCALE};
use crate::image::Image;
use crate::lighting::PointLight;
use crate::material::Material;
use crate::math::{
    fdiv, fmul, lemma_abs_mul_le, lemma_fmul_le, lemma_tdiv_le, lemma_tdiv_nonpos,
    map_range, map_range_spec, mul_fixed, div_fixed, tdiv, tdiv_i128,
};
use crate::physics::{
    hit_wf, object_hits, sort_intersections, sort_spec, Intersection, Object,
};
use crate::ray::Ray;
use crate::sphere::a_coef;
use crate::vector::{
    dot_spec, length_spec, lemma_dot_le, normalise_spec, reflect_spec, vsub_spec, Vec3D,
};

verus! {

/// The two shading policies behind the one object contract: grayscale by
/// hit distance, or the local lighting model.
#[derive(Clone, Copy, Debug, PartialEq, Eq, Structural)]
pub enum Shading {
    Distance,
    Lighting,
}

/// Everything the renderer reads besides the camera: the ordered objects,
/// the lights, the background fill, the ambient base of the diffuse sum,
/// and the shading policy.
#[derive(Clone, Debug)]
pub struct Scene {
    pub objects: Vec<Object>,
    pub lights: Vec<PointLight>,
    pub background: Colour,
    pub ambient: i64,
    pub shading: Shading,
}

impl Scene {
    /// A well-formed scene: objects and lights inside the coordinate
    /// ranges, shapes with at least one fixed-point step of radius, a
    /// background and ambient base in the unit range.
    pub open spec fn wf(self) -> bool {
        &&& forall|i: int|
            0 <= i < self.objects@.len() ==> (#[trigger] self.objects@[i]).wf()
                && self.objects@[i].as_sphere().radius >= 1
        &&& forall|i: int| 0 <= i < self.lights@.len() ==> (#[trigger] self.lights@[i]).wf()
        &&& 0 <= self.background.red <= SCALE
        &&& 0 <= self.background.green <= SCALE
        &&& 0 <= self.background.blue <= SCALE
        &&& 0 <= self.ambient <= SCALE
    }
}

/// Brightness clamped into `0 ..= BRIGHT_MAX`: the fixed-point stand-in
/// for the unbounded growth floating-point shading would show on extreme
/// inputs.
pub open spec fn sat_cap(v: int) -> int {
    if v < 0 {
        0
    } else if v > BRIGHT_MAX as int {
        BRIGHT_MAX as int
    } else {
        v
    }
}

/// Saturating brightness addition.
pub open spec fn sat_add(a: int, b: int) -> int {
    sat_cap(a + b)
}

/// Saturating fixed-point brightness product.
pub open spec fn sat_mul(a: int, b: int) -> int {
    sat_cap(fmul(a, b))
}

/// Saturating addition of two brightness values.
fn sat_add_exec(a: i64, b: i64) -> (r: i64)
    requires
        0 <= a <= BRIGHT_MAX,
        0 <= b <= BRIGHT_MAX,
    ensures
        r as int == sat_add(a as int, b as int),
        0 <= r <= BRIGHT_MAX,
{
    let s = a + b;
    if s > BRIGHT_MAX {
        BRIGHT_MAX
    } else {
        s
    }
}

/// Saturating fixed-point product of two brightness values.
fn sat_mul_exec(a: i64, b: i64) -> (r: i64)
    requires
        0 <= a,
        0 <= b,
    ensures
        r as int == sat_mul(a as int, b as int),
        0 <= r <= BRIGHT_MAX,
{
    proof {
        lemma_abs_mul_le(a as int, b as int, a as int, b as int);
        assert(a as int * b as int >= 0) by (nonlinear_arith)
            requires 0 <= a as int, 0 <= b as int;
        lemma_div_pos_is_pos(a as int * b as int, SCALE as int);
        crate::math::lemma_i64_product_fits(a as int, b as int);
    }
    let p: i128 = tdiv_i128(a as i128 * b as i128, SCALE as i128);
    if p > BRIGHT_MAX as i128 {
        BRIGHT_MAX
    } else {
        p as i64
    }
}

/// What the specular falloff raises: the clamped base multiplied into
/// itself `e` times, saturating, with `SCALE` (one) for the empty product.
pub open spec fn pow_sat(base: int, e: nat) -> int
    decreases e,
{
    if e == 0 {
        SCALE as int
    } else {
        sat_mul(sat_cap(base), pow_sat(base, (e - 1) as nat))
    }
}

/// Saturating fixed-point power.
fn pow_sat_exec(base: i64, e: u32) -> (r: i64)
    requires
        0 <= base,
    ensures
        r as int == pow_sat(base as int, e as nat),
        0 <= r <= BRIGHT_MAX,
{
    let b: i64 = if base > BRIGHT_MAX {
        BRIGHT_MAX
    } else {
        base
    };
    let mut acc: i64 = SCALE;
    let mut i: u32 = 0;
    while i < e
        invariant
            0 <= i <= e,
            acc as int == pow_sat(base as int, i as nat),
            0 <= acc <= BRIGHT_MAX,
            b as int == sat_cap(base as int),
        decreases e - i,
    {
        acc = sat_mul_exec(b, acc);
        i = i + 1;
    }
    acc
}

/// One light's contribution to the diffuse sum: the cosine of the light
/// direction against the normal, clamped at zero, times the intensity,
/// divided by the squared distance where the light says so. A light
/// sitting on the surface itself contributes nothing.
pub open spec fn diffuse_term(light: PointLight, position: Vec3D, normal: Vec3D) -> int {
    let off = vsub_spec(light.position, position);
    if length_spec(off) == 0 {
        0
    } else {
        let d = dot_spec(normalise_spec(off), normal);
        let dpos = if d > 0 {
            d
        } else {
            0
        };
        let raw = fmul(dpos, light.intensity as int);
        if light.inverse_square {
            let q = fmul(length_spec(off), length_spec(off));
            sat_cap(fdiv(raw, if q < 1 {
                1
            } else {
                q
            }))
        } else {
            sat_cap(raw)
        }
    }
}

/// One light's contribution to the specular sum: the reflected light
/// direction against the ray direction, clamped at zero, raised to the
/// material's exponent, times the intensity.
pub open spec fn specular_term(
    light: PointLight,
    position: Vec3D,
    normal: Vec3D,
    ray_dir: Vec3D,
    exponent: u32,
) -> int {
    let off = vsub_spec(light.position, position);
    if length_spec(off) == 0 {
        0
    } else {
        let sd = dot_spec(reflect_spec(normalise_spec(off), normal), ray_dir);
        let sdp = if sd > 0 {
            sd
        } else {
            0
        };
        sat_mul(pow_sat(sdp, exponent as nat), light.intensity as int)
    }
}

/// The diffuse and specular sums over all lights, the diffuse sum seeded
/// with the ambient base.
pub open spec fn light_totals(
    lights: Seq<PointLight>,
    position: Vec3D,
    normal: Vec3D,
    ray_dir: Vec3D,
    exponent: u32,
    ambient: int,
) -> (int, int)
    decreases lights.len(),
{
    if lights.len() == 0 {
        (sat_cap(ambient), 0)
    } else {
        let prev = light_totals(
            lights.drop_last(),
            position,
            normal,
            ray_dir,
            exponent,
            ambient,
        );
        (
            sat_add(prev.0, diffuse_term(lights.last(), position, normal)),
            sat_add(prev.1, specular_term(lights.last(), position, normal, ray_dir, exponent)),
        )
    }
}

/// Accumulates the diffuse and specular light sums for one surface point.
fn light_totals_exec(
    lights: &Vec<PointLight>,
    position: Vec3D,
    normal: Vec3D,
    ray_dir: Vec3D,
    exponent: u32,
    ambient: i64,
) -> (r: (i64, i64))
    requires
        forall|i: int| 0 <= i < lights@.len() ==> (#[trigger] lights@[i]).wf(),
        position.in_coord_range(),
        normal.bounded(SCALE as int),
        ray_dir.bounded(COORD_MAX as int),
        0 <= ambient <= SCALE,
    ensures
        r.0 as int == light_totals(lights@, position, normal, ray_dir, exponent,
            ambient as int).0,
        r.1 as int == light_totals(lights@, position, normal, ray_dir, exponent,
            ambient as int).1,
        0 <= r.0 <= BRIGHT_MAX,
        0 <= r.1 <= BRIGHT_MAX,
{
    let mut diffuse: i64 = ambient;
    let mut specular: i64 = 0;
    let mut i: usize = 0;
    proof {
        assert(lights@.take(0) =~= Seq::<PointLight>::empty());
    }
    while i < lights.len()
        invariant
            0 <= i <= lights@.len(),
            forall|k: int| 0 <= k < lights@.len() ==> (#[trigger] lights@[k]).wf(),
            position.in_coord_range(),
            normal.bounded(SCALE as int),
            ray_dir.bounded(COORD_MAX as int),
            0 <= ambient <= SCALE,
            diffuse as int == light_totals(lights@.take(i as int), position, normal, ray_dir,
                exponent, ambient as int).0,
            specular as int == light_totals(lights@.take(i as int), position, normal, ray_dir,
                exponent, ambient as int).1,
            0 <= diffuse <= BRIGHT_MAX,
            0 <= specular <= BRIGHT_MAX,
        decreases lights@.len() - i,
    {
        let light = lights[i];
        let dterm = diffuse_term_exec(light, position, normal);
        let sterm = specular_term_exec(light, position, normal, ray_dir, exponent);
        diffuse = sat_add_exec(diffuse, dterm);
        specular = sat_add_exec(specular, sterm);
        proof {
            assert(lights@.take(i as int + 1).drop_last() =~= lights@.take(i as int));
            assert(lights@.take(i as int + 1).last() == lights@[i as int]);
        }
        i = i + 1;
    }
    proof {
        assert(lights@.take(lights@.len() as int) =~= lights@);
    }
    (diffuse, specular)
}

/// One light's diffuse contribution.
fn diffuse_term_exec(light: PointLight, position: Vec3D, normal: Vec3D) -> (r: i64)
    requires
        light.wf(),
        position.in_coord_range(),
        normal.bounded(SCALE as int),
    ensures
        r as int == diffuse_term(light, position, normal),
        0 <= r <= BRIGHT_MAX,
{
    let off = light.position.sub(position);
    let ol = off.length();
    if ol == 0 {
        return 0;
    }
    let ldir = off.normalise();
    proof {
        lemma_dot_le(ldir, normal, SCALE as int, SCALE as int, 3_000_000);
        lemma_fmul_le(dot_spec(ldir, normal), light.intensity as int, 3_000_000,
            COORD_MAX as int, 300_000_000_000);
        lemma_fmul_le(0, light.intensity as int, 3_000_000, COORD_MAX as int, 300_000_000_000);
    }
    let d = ldir.dot(normal);
    let dpos: i64 = if d > 0 {
        d
    } else {
        0
    };
    let raw = mul_fixed(dpos, light.intensity);
    proof {
        assert(fmul(dpos as int, light.intensity as int) >= 0) by {
            lemma_abs_mul_le(dpos as int, light.intensity as int, 3_000_000, COORD_MAX as int);
            assert(dpos as int * light.intensity as int >= 0) by (nonlinear_arith)
                requires 0 <= dpos as int, 0 <= light.intensity as int;
            lemma_div_pos_is_pos(dpos as int * light.intensity as int, SCALE as int);
        }
    }
    if light.inverse_square {
        proof {
            lemma_fmul_le(ol as int, ol as int, 700_000_000_000, 700_000_000_000,
                490_000_000_000_000_000);
            assert(fmul(ol as int, ol as int) >= 0) by {
                assert(ol as int * ol as int >= 0) by (nonlinear_arith);
                lemma_div_pos_is_pos(ol as int * ol as int, SCALE as int);
            }
        }
        let q = mul_fixed(ol, ol);
        let qq: i64 = if q < 1 {
            1
        } else {
            q
        };
        proof {
            lemma_abs_mul_le(raw as int, SCALE as int, 300_000_000_000, SCALE as int);
            assert(300_000_000_000_000_000 * (qq as int) >= 300_000_000_000_000_000)
                by (nonlinear_arith)
                requires qq as int >= 1;
            lemma_tdiv_le(raw as int * SCALE as int, qq as int, 300_000_000_000_000_000);
            assert(fdiv(raw as int, qq as int) >= 0) by {
                lemma_div_pos_is_pos(raw as int * SCALE as int, qq as int);
            }
        }
        let f = div_fixed(raw, qq);
        if f > BRIGHT_MAX {
            BRIGHT_MAX
        } else {
            f
        }
    } else {
        if raw > BRIGHT_MAX {
            BRIGHT_MAX
        } else {
            raw
        }
    }
}

/// One light's specular contribution.
fn specular_term_exec(
    light: PointLight,
    position: Vec3D,
    normal: Vec3D,
    ray_dir: Vec3D,
    exponent: u32,
) -> (r: i64)
    requires
        light.wf(),
        position.in_coord_range(),
        normal.bounded(SCALE as int),
        ray_dir.bounded(COORD_MAX as int),
    ensures
        r as int == specular_term(light, position, normal, ray_dir, exponent),
        0 <= r <= BRIGHT_MAX,
{
    let off = light.position.sub(position);
    let ol = off.length();
    if ol == 0 {
        return 0;
    }
    let ldir = off.normalise();
    let refl = ldir.reflect(normal);
    proof {
        lemma_dot_le(refl, ray_dir, 25_000_000_000, COORD_MAX as int, 7_500_000_000_000_000);
    }
    let sd = refl.dot(ray_dir);
    let sdp: i64 = if sd > 0 {
        sd
    } else {
        0
    };
    let p = pow_sat_exec(sdp, exponent);
    sat_mul_exec(p, light.intensity)
}

/// What one hit shades to. Distance shading remaps the hit distance
/// across the object's extent around the camera-to-centre distance into a
/// gray value, brighter the closer. Lighting shading composites the
/// diffuse and specular sums through the material's albedo pair.
pub open spec fn shade_hit_spec(
    shading: Shading,
    lights: Seq<PointLight>,
    ambient: int,
    camera_position: Vec3D,
    hit: Intersection,
) -> Colour {
    match shading {
        Shading::Distance => {
            let s = hit.object.as_sphere();
            let dc = length_spec(vsub_spec(s.centre, camera_position));
            let g = map_range_spec(hit.distance as int, dc - s.radius, dc + s.radius,
                SCALE as int, 0);
            Colour { red: g as i64, green: g as i64, blue: g as i64 }
        },
        Shading::Lighting => {
            let m = hit.object.as_sphere().material;
            let t = light_totals(lights, hit.position, hit.normal, hit.ray.direction,
                m.specular_exponent, ambient);
            Colour {
                red: (fmul(fmul(m.diffuse_colour.red as int, t.0), m.albedo_diffuse as int)
                    + fmul(fmul(SCALE as int, t.1), m.albedo_specular as int)) as i64,
                green: (fmul(fmul(m.diffuse_colour.green as int, t.0), m.albedo_diffuse as int)
                    + fmul(fmul(SCALE as int, t.1), m.albedo_specular as int)) as i64,
                blue: (fmul(fmul(m.diffuse_colour.blue as int, t.0), m.albedo_diffuse as int)
                    + fmul(fmul(SCALE as int, t.1), m.albedo_specular as int)) as i64,
            }
        },
    }
}

/// Shades the nearest hit of one pixel ray.
fn shade_hit(
    shading: Shading,
    lights: &Vec<PointLight>,
    ambient: i64,
    camera_position: Vec3D,
    hit: Intersection,
) -> (r: Colour)
    requires
        hit_wf(hit),
        hit.object.as_sphere().radius >= 1,
        forall|i: int| 0 <= i < lights@.len() ==> (#[trigger] lights@[i]).wf(),
        0 <= ambient <= SCALE,
        camera_position.in_coord_range(),
    ensures
        r == shade_hit_spec(shading, lights@, ambient as int, camera_position, hit),
{
    match shading {
        Shading::Distance => {
            let s = match &hit.object {
                Object::Sphere(s) => *s,
            };
            let off = s.centre.sub(camera_position);
            let dc = off.length();
            proof {
                let num = (hit.distance as int - (dc as int - s.radius as int)) * (0
                    - SCALE as int);
                lemma_abs_mul_le(hit.distance as int - (dc as int - s.radius as int),
                    0 - SCALE as int, 1_900_000_000_000, SCALE as int);
                assert(1_900_000_000_000_000_000 * ((dc as int + s.radius as int) - (dc as int
                    - s.radius as int)) >= 1_900_000_000_000_000_000) by (nonlinear_arith)
                    requires s.radius as int >= 1;
                lemma_tdiv_le(num, (dc as int + s.radius as int) - (dc as int - s.radius as int),
                    1_900_000_000_000_000_000);
            }
            let g = map_range(hit.distance, (dc - s.radius)..(dc + s.radius), SCALE..0i64);
            Colour::gray(g)
        },
        Shading::Lighting => {
            let m = match &hit.object {
                Object::Sphere(s) => s.material,
            };
            let t = light_totals_exec(lights, hit.position, hit.normal, hit.ray.direction,
                m.specular_exponent, ambient);
            proof {
                lemma_shade_products(m, t.0 as int, t.1 as int);
            }
            let white = Colour::from_hex(0xffffff);
            proof {
                lemma_div_multiples_vanish(SCALE as int, 255);
                assert((0xffffffu32 >> 16) & 0xff == 255 && (0xffffffu32 >> 8) & 0xff == 255
                    && 0xffffffu32 & 0xff == 255) by (bit_vector);
                assert(byte_channel(255) == SCALE as int);
                assert(white.red == SCALE && white.green == SCALE && white.blue == SCALE);
            }
            let diffuse_part = m.diffuse_colour.scale(t.0).scale(m.albedo_diffuse);
            let specular_part = white.scale(t.1).scale(m.albedo_specular);
            diffuse_part.add(specular_part)
        },
    }
}

/// The products of the compositing formula all stay within brightness
/// range.
proof fn lemma_shade_products(m: Material, d: int, sp: int)
    requires
        m.wf(),
        0 <= d <= BRIGHT_MAX,
        0 <= sp <= BRIGHT_MAX,
    ensures
        -(BRIGHT_MAX as int) <= fmul(m.diffuse_colour.red as int, d) <= BRIGHT_MAX as int,
        -(BRIGHT_MAX as int) <= fmul(m.diffuse_colour.green as int, d) <= BRIGHT_MAX as int,
        -(BRIGHT_MAX as int) <= fmul(m.diffuse_colour.blue as int, d) <= BRIGHT_MAX as int,
        -(BRIGHT_MAX as int) <= fmul(fmul(m.diffuse_colour.red as int, d),
            m.albedo_diffuse as int) <= BRIGHT_MAX as int,
        -(BRIGHT_MAX as int) <= fmul(fmul(m.diffuse_colour.green as int, d),
            m.albedo_diffuse as int) <= BRIGHT_MAX as int,
        -(BRIGHT_MAX as int) <= fmul(fmul(m.diffuse_colour.blue as int, d),
            m.albedo_diffuse as int) <= BRIGHT_MAX as int,
        -(BRIGHT_MAX as int) <= fmul(SCALE as int, sp) <= BRIGHT_MAX as int,
        -(BRIGHT_MAX as int) <= fmul(fmul(SCALE as int, sp), m.albedo_specular as int)
            <= BRIGHT_MAX as int,
{
    lemma_fmul_le(m.diffuse_colour.red as int, d, SCALE as int, BRIGHT_MAX as int,
        BRIGHT_MAX as int);
    lemma_fmul_le(m.diffuse_colour.green as int, d, SCALE as int, BRIGHT_MAX as int,
        BRIGHT_MAX as int);
    lemma_fmul_le(m.diffuse_colour.blue as int, d, SCALE as int, BRIGHT_MAX as int,
        BRIGHT_MAX as int);
    lemma_fmul_le(fmul(m.diffuse_colour.red as int, d), m.albedo_diffuse as int,
        BRIGHT_MAX as int, SCALE as int, BRIGHT_MAX as int);
    lemma_fmul_le(fmul(m.diffuse_colour.green as int, d), m.albedo_diffuse as int,
        BRIGHT_MAX as int, SCALE as int, BRIGHT_MAX as int);
    lemma_fmul_le(fmul(m.diffuse_colour.blue as int, d), m.albedo_diffuse as int,
        BRIGHT_MAX as int, SCALE as int, BRIGHT_MAX as int);
    lemma_fmul_le(SCALE as int, sp, SCALE as int, BRIGHT_MAX as int, BRIGHT_MAX as int);
    lemma_fmul_le(fmul(SCALE as int, sp), m.albedo_specular as int, BRIGHT_MAX as int,
        SCALE as int, BRIGHT_MAX as int);
}

/// Every intersection of the ray with every scene object, object by
/// object in scene order.
pub open spec fn gather_spec(objs: Seq<Object>, ray: Ray) -> Seq<Intersection>
    decreases objs.len(),
{
    if objs.len() == 0 {
        Seq::empty()
    } else {
        gather_spec(objs.drop_last(), ray) + object_hits(objs.last(), ray)
    }
}

/// Collects the intersections of one ray with the whole scene.
fn gather_intersections(objects: &Vec<Object>, ray: &Ray) -> (r: Vec<Intersection>)
    requires
        forall|i: int| 0 <= i < objects@.len() ==> (#[trigger] objects@[i]).wf(),
        ray.origin.in_coord_range(),
        ray.direction.in_coord_range(),
        a_coef(*ray) >= 1,
    ensures
        r@ == gather_spec(objects@, *ray),
{
    let mut out: Vec<Intersection> = Vec::new();
    let mut i: usize = 0;
    proof {
        assert(objects@.take(0) =~= Seq::<Object>::empty());
    }
    while i < objects.len()
        invariant
            0 <= i <= objects@.len(),
            forall|k: int| 0 <= k < objects@.len() ==> (#[trigger] objects@[k]).wf(),
            ray.origin.in_coord_range(),
            ray.direction.in_coord_range(),
            a_coef(*ray) >= 1,
            out@ == gather_spec(objects@.take(i as int), *ray),
        decreases objects@.len() - i,
    {
        let mut hits = objects[i].intersections(ray);
        out.append(&mut hits);
        proof {
            assert(objects@.take(i as int + 1).drop_last() =~= objects@.take(i as int));
            assert(objects@.take(i as int + 1).last() == objects@[i as int]);
        }
        i = i + 1;
    }
    proof {
        assert(objects@.take(objects@.len() as int) =~= objects@);
    }
    out
}

/// Every gathered hit is well formed and belongs to a scene object, whose
/// radius carries over.
pub proof fn lemma_gather_wf(objs: Seq<Object>, ray: Ray)
    requires
        forall|i: int|
            0 <= i < objs.len() ==> (#[trigger] objs[i]).wf() && objs[i].as_sphere().radius
                >= 1,
        ray.origin.in_coord_range(),
        ray.direction.in_coord_range(),
    ensures
        forall|k: int|
            0 <= k < gather_spec(objs, ray).len() ==> hit_wf(#[trigger] gather_spec(objs, ray)[k])
                && gather_spec(objs, ray)[k].object.wf() && gather_spec(
                objs,
                ray,
            )[k].object.as_sphere().radius >= 1,
    decreases objs.len(),
{
    if objs.len() > 0 {
        let prefix = objs.drop_last();
        assert(forall|i: int|
            0 <= i < prefix.len() ==> prefix[i] == objs[i] && (#[trigger] prefix[i]).wf()
                && prefix[i].as_sphere().radius >= 1);
        lemma_gather_wf(prefix, ray);
        let s = objs.last().as_sphere();
        crate::sphere::lemma_sphere_hits_wf(s, ray);
        assert(forall|k: int|
            0 <= k < gather_spec(prefix, ray).len() ==> gather_spec(objs, ray)[k]
                == #[trigger] gather_spec(prefix, ray)[k]);
        assert(forall|k: int|
            0 <= k < object_hits(objs.last(), ray).len() ==> gather_spec(objs, ray)[gather_spec(
                prefix,
                ray,
            ).len() + k] == #[trigger] object_hits(objs.last(), ray)[k]);
    }
}

/// What one pixel of the render shows: the camera ray through the pixel's
/// screen-plane point is cast against every object; the nearest hit is
/// shaded, a miss keeps the background. A ray whose direction carries no
/// measurable motion is treated as a miss.
pub open spec fn pixel_spec(
    scene: Scene,
    camera: Camera,
    x: int,
    y: int,
    width: int,
    height: int,
    ptw: int,
) -> Colour {
    let sx = (x - width / 2) * ptw;
    let sy = (y - height / 2) * ptw;
    let ray = camera_ray_spec(camera, sx as i64, sy as i64);
    if a_coef(ray) < 1 {
        scene.background
    } else {
        let hits = sort_spec(gather_spec(scene.objects@, ray));
        if hits.len() == 0 {
            scene.background
        } else {
            shade_hit_spec(scene.shading, scene.lights@, scene.ambient as int, camera.position,
                hits[0])
        }
    }
}

/// Renders one pixel: build the camera ray, gather and sort the hits,
/// shade the nearest or keep the background.
pub fn render_pixel(
    scene: &Scene,
    camera: &Camera,
    x: usize,
    y: usize,
    width: usize,
    height: usize,
    pixel_to_world: i64,
) -> (r: Colour)
    requires
        scene.wf(),
        camera.wf(),
        x < width,
        y < height,
        width <= 16384,
        height <= 16384,
        0 < pixel_to_world,
        width as int * (pixel_to_world as int) <= 2_000_000_000,
        height as int * (pixel_to_world as int) <= 2_000_000_000,
    ensures
        r == pixel_spec(*scene, *camera, x as int, y as int, width as int, height as int,
            pixel_to_world as int),
{
    let half_w = (width / 2) as i64;
    let half_h = (height / 2) as i64;
    proof {
        lemma_abs_mul_le(x as int - half_w as int, pixel_to_world as int, width as int,
            pixel_to_world as int);
        lemma_abs_mul_le(y as int - half_h as int, pixel_to_world as int, height as int,
            pixel_to_world as int);
    }
    let sx = (x as i64 - half_w) * pixel_to_world;
    let sy = (y as i64 - half_h) * pixel_to_world;
    let ray = camera.ray_from_position(sx, sy);
    let a = ray.direction.dot(ray.direction);
    if a < 1 {
        return scene.background;
    }
    let hits = gather_intersections(&scene.objects, &ray);
    proof {
        lemma_gather_wf(scene.objects@, ray);
        crate::physics::lemma_sort_spec_props(gather_spec(scene.objects@, ray));
    }
    let sorted = sort_intersections(hits);
    if sorted.len() == 0 {
        scene.background
    } else {
        let first = sorted[0];
        proof {
            let g = gather_spec(scene.objects@, ray);
            assert(g.contains(first));
            let m = choose|m: int| 0 <= m < g.len() && g[m] == first;
            assert(hit_wf(g[m]));
        }
        shade_hit(scene.shading, &scene.lights, scene.ambient, camera.position, first)
    }
}

/// Renders the whole image, row-major, top row first: a pure map over
/// independent pixels of the one `pixel_spec` function of scene, camera
/// and pixel coordinate, with no state carried from pixel to pixel.
pub fn render(
    scene: &Scene,
    camera: &Camera,
    width: usize,
    height: usize,
    pixel_to_world: i64,
) -> (r: Image)
    requires
        scene.wf(),
        camera.wf(),
        0 < width <= 16384,
        0 < height <= 16384,
        0 < pixel_to_world,
        width as int * (pixel_to_world as int) <= 2_000_000_000,
        height as int * (pixel_to_world as int) <= 2_000_000_000,
    ensures
        r.width == width,
        r.height == height,
        r.wf(),
        forall|xx: int, yy: int|
            0 <= xx < width && 0 <= yy < height ==> r.pixels@[yy * width + xx] == pixel_spec(
                *scene,
                *camera,
                xx,
                yy,
                width as int,
                height as int,
                pixel_to_world as int,
            ),
{
    proof {
        assert(width as int * height as int <= 16384 * 16384) by (nonlinear_arith)
            requires 0 < width as int <= 16384, 0 < height as int <= 16384;
    }
    let n = width * height;
    let mut pixels: Vec<Colour> = Vec::new();
    let mut k: usize = 0;
    while k < n
        invariant
            scene.wf(),
            camera.wf(),
            0 < width <= 16384,
            0 < height <= 16384,
            0 < pixel_to_world,
            width as int * (pixel_to_world as int) <= 2_000_000_000,
            height as int * (pixel_to_world as int) <= 2_000_000_000,
            n == width * height,
            n <= 16384 * 16384,
            0 <= k <= n,
            pixels@.len() == k,
            forall|j: int|
                0 <= j < k ==> pixels@[j] == pixel_spec(*scene, *camera,
                    j % (width as int), j / (width as int), width as int, height as int,
                    pixel_to_world as int),
        decreases n - k,
    {
        let xx = k % width;
        let yy = k / width;
        proof {
            lemma_mod_division_less_than_divisor(k as int, width as int);
            lemma_multiply_divide_lt(k as int, width as int, height as int);
        }
        let c = render_pixel(scene, camera, xx, yy, width, height, pixel_to_world);
        pixels.push(c);
        k = k + 1;
    }
    let img = Image { width, height, pixels };
    proof {
        assert forall|xx: int, yy: int| 0 <= xx < width && 0 <= yy < height implies
            img.pixels@[yy * width + xx] == pixel_spec(*scene, *camera, xx, yy, width as int,
                height as int, pixel_to_world as int) by {
            assert(0 <= yy * (width as int) + xx < (width as int) * (height as int))
                by (nonlinear_arith)
                requires 0 <= xx < width as int, 0 <= yy < height as int;
            lemma_fundamental_div_mod_converse(yy * (width as int) + xx, width as int, yy, xx);
        }
    }
    img
}

/// The larger of three channel values.
pub open spec fn max3(a: int, b: int, c: int) -> int {
    if a >= b && a >= c {
        a
    } else if b >= c {
        b
    } else {
        c
    }
}

/// What tone-mapping yields: a colour none of whose channels exceeds full
/// is kept as it is; an over-bright colour is rescaled by its largest
/// channel, every channel divided by the same value so the channel ratios
/// are preserved. Tone-mapping never rejects a colour.
pub open spec fn tone_map_spec(c: Colour) -> Colour {
    let m = max3(c.red as int, c.green as int, c.blue as int);
    if m > SCALE as int {
        Colour {
            red: fdiv(c.red as int, m) as i64,
            green: fdiv(c.green as int, m) as i64,
            blue: fdiv(c.blue as int, m) as i64,
        }
    } else {
        c
    }
}

/// One channel rescaled by the (larger) maximum stays in range: at most
/// full, and no further from zero than it started.
proof fn lemma_rescale_bound(ch: int, m: int)
    requires
        (SCALE as int) < m,
        ch <= m,
        i64::MIN <= ch <= i64::MAX,
    ensures
        fdiv(ch, m) <= SCALE as int,
        ch >= 0 ==> 0 <= fdiv(ch, m),
        ch < 0 ==> ch <= fdiv(ch, m) <= 0,
{
    if ch >= 0 {
        assert(ch * (SCALE as int) <= (SCALE as int) * m) by (nonlinear_arith)
            requires 0 <= ch <= m, 0 < SCALE as int;
        lemma_tdiv_le(ch * (SCALE as int), m, SCALE as int);
    } else {
        assert(-((-ch) * m) <= ch * (SCALE as int) && ch * (SCALE as int) <= (-ch) * m)
            by (nonlinear_arith)
            requires ch < 0, 0 < SCALE as int, (SCALE as int) < m;
        lemma_tdiv_le(ch * (SCALE as int), m, -ch);
        lemma_tdiv_nonpos(ch * (SCALE as int), m);
    }
}

/// Rescales an over-bright colour so its largest channel is exactly full,
/// preserving the ratios between channels; anything already in range is
/// untouched.
pub fn tone_map(c: Colour) -> (r: Colour)
    ensures
        r == tone_map_spec(c),
        r.red <= SCALE && r.green <= SCALE && r.blue <= SCALE || r == c,
{
    let m: i64 = if c.red >= c.green && c.red >= c.blue {
        c.red
    } else if c.green >= c.blue {
        c.green
    } else {
        c.blue
    };
    if m > SCALE {
        proof {
            lemma_rescale_bound(c.red as int, m as int);
            lemma_rescale_bound(c.green as int, m as int);
            lemma_rescale_bound(c.blue as int, m as int);
        }
        Colour {
            red: div_fixed(c.red, m),
            green: div_fixed(c.green, m),
            blue: div_fixed(c.blue, m),
        }
    } else {
        c
    }
}

/// Encodes the buffer for a binary pixmap body: each pixel tone-mapped,
/// then each channel truncated to one byte, red then green then blue,
/// row-major. The header and the file itself are the caller's business.
pub fn image_bytes(image: &Image) -> (r: Vec<u8>)
    requires
        image.wf(),
        3 * (image.width * image.height) <= usize::MAX,
    ensures
        r@.len() == 3 * (image.width * image.height),
        forall|k: int|
            0 <= k < image.width * image.height ==> {
                &&& r@[3 * k] == channel_byte(tone_map_spec(image.pixels@[k]).red as int)
                &&& r@[3 * k + 1] == channel_byte(tone_map_spec(image.pixels@[k]).green as int)
                &&& r@[3 * k + 2] == channel_byte(tone_map_spec(image.pixels@[k]).blue as int)
            },
{
    let n = image.width * image.height;
    let mut out: Vec<u8> = Vec::new();
    let mut k: usize = 0;
    while k < n
        invariant
            image.wf(),
            n == image.width * image.height,
            3 * n <= usize::MAX,
            0 <= k <= n,
            out@.len() == 3 * k,
            forall|j: int|
                0 <= j < k ==> {
                    &&& out@[3 * j] == channel_byte(tone_map_spec(image.pixels@[j]).red as int)
                    &&& out@[3 * j + 1] == channel_byte(
                        tone_map_spec(image.pixels@[j]).green as int,
                    )
                    &&& out@[3 * j + 2] == channel_byte(
                        tone_map_spec(image.pixels@[j]).blue as int,
                    )
                },
        decreases n - k,
    {
        let t = tone_map(image.pixels[k]);
        out.push(Colour::channel_to_byte(t.red) as u8);
        out.push(Colour::channel_to_byte(t.green) as u8);
        out.push(Colour::channel_to_byte(t.blue) as u8);
        k = k + 1;
    }
    out
}

} // verus!
