use raytracer::colour::Colour;
use raytracer::constants::SCALE;
use raytracer::material::Material;
use raytracer::ray::Ray;
use raytracer::sphere::Sphere;
use raytracer::vector::Vec3D;

#[test]
fn test_sphere_intersections() {
    let sphere = Sphere::default();
    let ray = Ray::new(Vec3D::new(0, 0, 5 * SCALE), Vec3D::new(0, 0, -SCALE));
    let intersections = sphere.intersections(&ray);
    assert_eq!(intersections.len(), 2);
    assert_eq!(intersections[0].position, Vec3D::new(0, 0, SCALE));
    assert_eq!(intersections[1].position, Vec3D::new(0, 0, -SCALE));
    assert_eq!(intersections[0].normal, Vec3D::new(0, 0, SCALE));
    assert_eq!(intersections[1].normal, Vec3D::new(0, 0, -SCALE));
    assert_eq!(intersections[0].distance, 4 * SCALE);
    assert_eq!(intersections[1].distance, 6 * SCALE);
}

#[test]
fn test_sphere_intersections_tangent() {
    let sphere = Sphere::default();
    let ray = Ray::new(Vec3D::new(0, SCALE, SCALE), Vec3D::new(0, -SCALE, 0));
    let intersections = sphere.intersections(&ray);
    assert_eq!(intersections.len(), 1);
    assert_eq!(intersections[0].position, Vec3D::new(0, 0, SCALE));
    assert_eq!(intersections[0].normal, Vec3D::new(0, 0, SCALE));
    assert_eq!(intersections[0].distance, SCALE);
}

#[test]
fn test_sphere_intersections_miss() {
    let sphere = Sphere::default();
    let ray = Ray::new(Vec3D::new(0, 0, 2 * SCALE), Vec3D::new(0, SCALE, 0));
    let intersections = sphere.intersections(&ray);
    assert!(intersections.is_empty());
}

#[test]
fn test_sphere_intersections_inside() {
    let sphere = Sphere::default();
    let ray = Ray::new(Vec3D::new(0, 0, 0), Vec3D::new(0, 0, -SCALE));
    let intersections = sphere.intersections(&ray);
    assert_eq!(intersections.len(), 1);
    assert_eq!(intersections[0].position, Vec3D::new(0, 0, -SCALE));
    assert_eq!(intersections[0].normal, Vec3D::new(0, 0, -SCALE));
    assert_eq!(intersections[0].distance, SCALE);
}

#[test]
fn test_sphere_intersections_symmetric_about_centre_crossing() {
    // a ray through the centre: the two distances sit symmetrically about
    // the centre-crossing distance, and the normals are the positions
    let sphere = Sphere::default();
    let ray = Ray::new(Vec3D::new(0, 0, 5 * SCALE), Vec3D::new(0, 0, -SCALE));
    let hits = sphere.intersections(&ray);
    assert_eq!(hits.len(), 2);
    let centre_crossing = 5 * SCALE;
    assert_eq!(centre_crossing - hits[0].distance, hits[1].distance - centre_crossing);
    assert_eq!(hits[0].normal, hits[0].position);
    assert_eq!(hits[1].normal, hits[1].position);
}

#[test]
fn test_sphere_accessors() {
    let material = Material::new(Colour::new(300_000, 100_000, 100_000), 10, 100_000, 900_000);
    let sphere = Sphere::new(Vec3D::new(SCALE, 0, 0), 2 * SCALE, material);
    assert_eq!(sphere.extent(), 4 * SCALE);
    assert_eq!(sphere.centre(), Vec3D::new(SCALE, 0, 0));
    assert_eq!(sphere.material(), material);
    assert_eq!(sphere.diffuse_colour(), Colour::new(300_000, 100_000, 100_000));
    let unit = Sphere::unit(material);
    assert_eq!(unit.radius, SCALE);
    assert_eq!(unit.centre(), Vec3D::new(0, 0, 0));
}

#[test]
fn test_behind_origin_hits_never_counted() {
    // sphere entirely behind the ray: both roots negative, no hits
    let sphere = Sphere::default();
    let ray = Ray::new(Vec3D::new(0, 0, 5 * SCALE), Vec3D::new(0, 0, SCALE));
    assert!(sphere.intersections(&ray).is_empty());
}
