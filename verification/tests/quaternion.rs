use raytracer::constants::SCALE;
use raytracer::quaternion::Quaternion;
use raytracer::vector::Vec3D;

// fixed-point cosines and sines of the angles the cases use
const COS_45: i64 = 707_107;
const SIN_45: i64 = 707_107;
const COS_30: i64 = 866_025;
const SIN_30: i64 = 500_000;
const COS_60: i64 = 500_000;
const SIN_60: i64 = 866_025;

fn x_axis() -> Vec3D {
    Vec3D::new(SCALE, 0, 0)
}

fn y_axis() -> Vec3D {
    Vec3D::new(0, SCALE, 0)
}

fn z_axis() -> Vec3D {
    Vec3D::new(0, 0, SCALE)
}

#[test]
fn test_quaternion_vector_multiplication() {
    // a quarter turn about x carries y onto z
    let quaternion = Quaternion::from_axis_angle(x_axis(), COS_45, SIN_45);
    let vector = y_axis();
    let result = quaternion.rotate_vector(vector);
    assert_eq!(result, z_axis());
}

#[test]
fn test_quaternion_quaternion_multiplication() {
    // two quarter turns about x compose to a half turn about x
    let quaternion = Quaternion::from_axis_angle(x_axis(), COS_45, SIN_45);
    let result = quaternion.mul(quaternion);
    assert_eq!(result, Quaternion::from_axis_angle(x_axis(), 0, SCALE));
}

#[test]
fn test_from_axis_angle() {}

#[test]
fn test_rotate() {
    let quaternion = Quaternion::rotate(x_axis(), y_axis(), z_axis());
    assert_eq!(quaternion, Quaternion::from_axis_angle(z_axis(), COS_45, SIN_45));
    let quaternion = Quaternion::rotate(y_axis(), z_axis(), z_axis());
    assert_eq!(quaternion, Quaternion::from_axis_angle(x_axis(), COS_45, SIN_45));
    let quaternion = Quaternion::rotate(z_axis(), x_axis(), z_axis());
    assert_eq!(quaternion, Quaternion::from_axis_angle(y_axis(), COS_45, SIN_45));
}

#[test]
fn test_rotation_composition_doubles_angle() {
    // composing a third-of-a-turn-sized rotation with itself equals the
    // rotation by twice the angle, within the shared tolerance
    let axis = Vec3D::new(SCALE, SCALE, 0);
    let single = Quaternion::from_axis_angle(axis, COS_30, SIN_30);
    let doubled = Quaternion::from_axis_angle(axis, COS_60, SIN_60);
    assert_eq!(single.mul(single), doubled);
}

#[test]
fn test_rotate_carries_from_onto_to() {
    // the minimal rotation applied to `from` reproduces `to` within the
    // shared tolerance, for a non-parallel pair off the axes
    let from = Vec3D::new(SCALE, 2 * SCALE, 0);
    let to = Vec3D::new(-SCALE, SCALE, SCALE / 2);
    let rotation = Quaternion::rotate(from, to, z_axis());
    let result = rotation.rotate_vector(from.normalise());
    assert_eq!(result, to.normalise());
}

#[test]
fn test_rotate_antiparallel_uses_up_axis() {
    // near-antiparallel pairs turn half a revolution about the supplied up
    let rotation = Quaternion::rotate(x_axis(), Vec3D::new(-SCALE, 0, 0), z_axis());
    assert_eq!(rotation, Quaternion::from_axis_angle(z_axis(), 0, SCALE));
}

#[test]
fn test_rotate_parallel_is_identity() {
    let rotation = Quaternion::rotate(x_axis(), x_axis(), z_axis());
    assert_eq!(rotation, Quaternion::identity());
    assert_eq!(Quaternion::default(), Quaternion::identity());
}
