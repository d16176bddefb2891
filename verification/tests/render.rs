use raytracer::camera::Camera;
use raytracer::colour::Colour;
use raytracer::constants::{EPSILON, SCALE};
use raytracer::image::{Image, PixelIterator};
use raytracer::lighting::PointLight;
use raytracer::material::Material;
use raytracer::math::map_range;
use raytracer::physics::{sort_intersections, Object};
use raytracer::quaternion::Quaternion;
use raytracer::render::{image_bytes, render, render_pixel, tone_map, Scene, Shading};
use raytracer::sphere::Sphere;
use raytracer::vector::Vec3D;

const COS_45: i64 = 707_107;

/// A camera at (0, 0, 5) looking down the negative z axis.
fn camera_above() -> Camera {
    Camera::new(
        Vec3D::new(0, 0, 5 * SCALE),
        Quaternion::from_axis_angle(Vec3D::new(SCALE, 0, 0), COS_45, -COS_45),
        5 * SCALE,
    )
}

fn ivory() -> Material {
    Material::new(Colour::new(400_000, 400_000, 300_000), 10, 0, 600_000)
}

fn unit_sphere_scene(lights: Vec<PointLight>, shading: Shading) -> Scene {
    Scene {
        objects: vec![Object::Sphere(Sphere::unit(ivory()))],
        lights,
        background: Colour::new(200_000, 700_000, 800_000),
        ambient: 0,
        shading,
    }
}

#[test]
fn test_end_to_end_primary_ray() {
    // the pixel ray through the screen centre hits the unit sphere at a
    // distance of four units, and the pixel takes the material's response
    // to the single head-on light
    let camera = camera_above();
    let ray = camera.ray_from_position(0, 0);
    let sphere = Sphere::unit(ivory());
    let hits = sphere.intersections(&ray);
    assert_eq!(hits.len(), 2);
    assert!((hits[0].distance - 4 * SCALE).abs() < EPSILON);
    let lights = vec![PointLight::new(Vec3D::new(0, 0, 5 * SCALE), SCALE, false)];
    let scene = unit_sphere_scene(lights, Shading::Lighting);
    let pixel = render_pixel(&scene, &camera, 0, 0, 1, 1, 8_000);
    assert_eq!(pixel, Colour::new(240_000, 240_000, 180_000));
}

#[test]
fn test_inverse_square_light_falls_off() {
    // the same light with inverse-square falloff is divided by the squared
    // distance to the surface, here sixteen units
    let lights = vec![PointLight::new(Vec3D::new(0, 0, 5 * SCALE), SCALE, true)];
    let scene = unit_sphere_scene(lights, Shading::Lighting);
    let pixel = render_pixel(&scene, &camera_above(), 0, 0, 1, 1, 8_000);
    assert_eq!(pixel, Colour::new(15_000, 15_000, 11_250));
}

#[test]
fn test_ambient_base_without_lights() {
    let mut scene = unit_sphere_scene(Vec::new(), Shading::Lighting);
    scene.ambient = 250_000;
    let pixel = render_pixel(&scene, &camera_above(), 0, 0, 1, 1, 8_000);
    assert_eq!(pixel, Colour::new(60_000, 60_000, 45_000));
}

#[test]
fn test_distance_shading_gray() {
    // distance shading remaps the hit distance across the sphere's extent
    // around the camera-to-centre distance: a front-surface hit is almost
    // fully bright
    let scene = unit_sphere_scene(Vec::new(), Shading::Distance);
    let pixel = render_pixel(&scene, &camera_above(), 0, 0, 1, 1, 8_000);
    assert_eq!(pixel, Colour::new(1_000_001, 1_000_001, 1_000_001));
}

#[test]
fn test_miss_keeps_background() {
    let scene = Scene {
        objects: Vec::new(),
        lights: Vec::new(),
        background: Colour::new(200_000, 700_000, 800_000),
        ambient: 0,
        shading: Shading::Lighting,
    };
    let camera = camera_above();
    let image = render(&scene, &camera, 2, 2, 8_000);
    assert_eq!(image.width, 2);
    assert_eq!(image.height, 2);
    for y in 0..2 {
        for x in 0..2 {
            assert_eq!(image.pixel(x, y), Colour::new(200_000, 700_000, 800_000));
        }
    }
}

#[test]
fn test_tone_map_rescales_proportionally() {
    // an over-bright colour is divided by its largest channel: the ratios
    // 4 : 2 : 1 survive and the largest channel lands exactly on full
    let over = Colour::new(2 * SCALE, SCALE, SCALE / 2);
    let mapped = tone_map(over);
    assert_eq!(mapped, Colour::new(SCALE, 500_000, 250_000));
    let brighter = Colour::new(3 * SCALE, 3 * SCALE / 2, 3 * SCALE / 4);
    assert_eq!(tone_map(brighter), Colour::new(SCALE, 500_000, 250_000));
}

#[test]
fn test_tone_map_keeps_colours_in_range() {
    let c = Colour::new(SCALE / 2, SCALE / 4, 0);
    assert_eq!(tone_map(c), c);
}

#[test]
fn test_image_bytes_quantise() {
    let image = Image::new(1, 1, Colour::new(2 * SCALE, SCALE, SCALE / 2));
    let bytes = image_bytes(&image);
    assert_eq!(bytes, vec![255u8, 127, 63]);
}

#[test]
fn test_image_new_set_get() {
    let mut image = Image::new(3, 2, Colour::new(0, 0, 0));
    assert_eq!(image.width, 3);
    assert_eq!(image.height, 2);
    image.set_pixel(2, 1, Colour::new(SCALE, 0, 0));
    assert_eq!(image.pixel(2, 1), Colour::new(SCALE, 0, 0));
    assert_eq!(image.pixel(0, 0), Colour::new(0, 0, 0));
}

#[test]
fn test_pixel_iterator_row_major() {
    let mut it = PixelIterator::new(2, 2);
    assert_eq!(it.next(), Some((0, 0)));
    assert_eq!(it.next(), Some((1, 0)));
    assert_eq!(it.next(), Some((0, 1)));
    assert_eq!(it.next(), Some((1, 1)));
    assert_eq!(it.next(), None);
}

#[test]
fn test_map_range_linear() {
    assert_eq!(map_range(500_000, 0..SCALE, 0..2 * SCALE), SCALE);
    assert_eq!(map_range(250_000, 0..SCALE, SCALE..0), 750_000);
    assert_eq!(map_range(2 * SCALE, 0..SCALE, 0..2 * SCALE), 4 * SCALE);
}

#[test]
fn test_sort_orders_by_distance() {
    // two spheres along one ray: the gathered hits come back sorted by
    // distance whatever order the objects were given in
    let near = Sphere::new(Vec3D::new(0, 0, 0), SCALE, ivory());
    let far = Sphere::new(Vec3D::new(0, 0, -10 * SCALE), SCALE, ivory());
    let ray = raytracer::ray::Ray::new(Vec3D::new(0, 0, 5 * SCALE), Vec3D::new(0, 0, -SCALE));
    let mut hits = far.intersections(&ray);
    hits.extend(near.intersections(&ray));
    let sorted = sort_intersections(hits);
    assert_eq!(sorted.len(), 4);
    for i in 1..sorted.len() {
        assert!(sorted[i - 1].distance <= sorted[i].distance);
    }
    assert_eq!(sorted[0].distance, 4 * SCALE);
    assert_eq!(sorted[3].distance, 16 * SCALE);
}

#[test]
fn test_intersections_order_by_distance_alone() {
    let sphere = Sphere::default();
    let ray = raytracer::ray::Ray::new(Vec3D::new(0, 0, 5 * SCALE), Vec3D::new(0, 0, -SCALE));
    let hits = sphere.intersections(&ray);
    assert_eq!(hits.len(), 2);
    assert_eq!(
        hits[0].partial_cmp(&hits[1]),
        Some(std::cmp::Ordering::Less)
    );
    assert_eq!(
        hits[1].partial_cmp(&hits[0]),
        Some(std::cmp::Ordering::Greater)
    );
    assert_eq!(hits[0].partial_cmp(&hits[0]), Some(std::cmp::Ordering::Equal));
}

#[test]
fn test_point_light_new() {
    let light = PointLight::new(Vec3D::new(0, SCALE, 0), 3 * SCALE / 2, true);
    assert_eq!(light.position, Vec3D::new(0, SCALE, 0));
    assert_eq!(light.intensity, 3 * SCALE / 2);
    assert!(light.inverse_square);
}
