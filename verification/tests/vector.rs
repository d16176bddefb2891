use raytracer::constants::SCALE;
use raytracer::quaternion::Quaternion;
use raytracer::vector::Vec3D;

#[test]
fn vector_test_new() {
    assert_eq!(
        Vec3D::new(SCALE, 2 * SCALE, 3 * SCALE),
        Vec3D {
            x: SCALE,
            y: 2 * SCALE,
            z: 3 * SCALE,
        }
    );
}

#[test]
fn test_triple() {
    assert_eq!(
        Vec3D::triple(SCALE),
        Vec3D {
            x: SCALE,
            y: SCALE,
            z: SCALE,
        }
    );
}

#[test]
fn test_length() {
    assert_eq!(Vec3D::new(SCALE, 2 * SCALE, 3 * SCALE).length(), 3_741_657);
}

#[test]
fn test_normalise() {
    assert_eq!(
        Vec3D::new(SCALE, 2 * SCALE, 3 * SCALE).normalise(),
        Vec3D {
            x: 267_261,
            y: 534_522,
            z: 801_783,
        }
    );
}

#[test]
fn test_dot() {
    assert_eq!(
        Vec3D::new(SCALE, 2 * SCALE, 3 * SCALE).dot(Vec3D::new(4 * SCALE, 5 * SCALE, 6 * SCALE)),
        32 * SCALE
    );
}

#[test]
fn test_cross() {
    assert_eq!(
        Vec3D::new(SCALE, 2 * SCALE, 3 * SCALE).cross(Vec3D::new(4 * SCALE, 5 * SCALE, 6 * SCALE)),
        Vec3D {
            x: -3 * SCALE,
            y: 6 * SCALE,
            z: -3 * SCALE,
        }
    );
}

#[test]
fn test_reflection() {
    assert_eq!(
        Vec3D::new(SCALE, SCALE, 0).reflect(Vec3D::new(0, SCALE, 0).normalise()),
        Vec3D::new(SCALE, -SCALE, 0)
    );
    assert_eq!(
        Vec3D::new(SCALE, SCALE, 0).reflect(Vec3D::new(SCALE, SCALE, 0).normalise()),
        Vec3D::new(-SCALE, -SCALE, 0)
    );
    assert_eq!(
        Vec3D::new(SCALE, SCALE, 0).reflect(Vec3D::new(0, 0, SCALE).normalise()),
        Vec3D::new(SCALE, SCALE, 0)
    );
    assert_eq!(
        Vec3D::new(SCALE, SCALE, 0).reflect(Vec3D::new(SCALE, 0, 0).normalise()),
        Vec3D::new(-SCALE, SCALE, 0)
    );
    assert_eq!(
        Vec3D::new(SCALE, SCALE, 0).reflect(Vec3D::new(0, SCALE, SCALE).normalise()),
        Vec3D::new(SCALE, 0, -SCALE)
    );
    assert_eq!(
        Vec3D::new(SCALE, SCALE, 0).reflect(Vec3D::new(SCALE, SCALE, SCALE).normalise()),
        Vec3D::new(-333_333, -333_333, -1_333_333)
    );
}

#[test]
fn test_equality_is_epsilon_tolerant() {
    // components within the shared tolerance compare equal, beyond it not
    assert_eq!(Vec3D::new(0, 0, 0), Vec3D::new(999, -999, 0));
    assert_ne!(Vec3D::new(0, 0, 0), Vec3D::new(1_000, 0, 0));
}

#[test]
fn test_add_sub_neg() {
    let a = Vec3D::new(SCALE, -2 * SCALE, 3 * SCALE);
    let b = Vec3D::new(4 * SCALE, 5 * SCALE, -6 * SCALE);
    let sum = a.add(b);
    assert_eq!(sum.x, 5 * SCALE);
    assert_eq!(sum.y, 3 * SCALE);
    assert_eq!(sum.z, -3 * SCALE);
    let diff = a.sub(b);
    assert_eq!(diff.x, -3 * SCALE);
    assert_eq!(diff.y, -7 * SCALE);
    assert_eq!(diff.z, 9 * SCALE);
    let neg = a.neg();
    assert_eq!(neg.x, -SCALE);
    assert_eq!(neg.y, 2 * SCALE);
    assert_eq!(neg.z, -3 * SCALE);
}

#[test]
fn test_componentwise_mul_div() {
    let a = Vec3D::new(SCALE, -2 * SCALE, 3 * SCALE);
    let b = Vec3D::new(2 * SCALE, SCALE / 2, -SCALE);
    let m = a.mul_each(b);
    assert_eq!(m.x, 2 * SCALE);
    assert_eq!(m.y, -SCALE);
    assert_eq!(m.z, -3 * SCALE);
    let d = a.div_each(b);
    assert_eq!(d.x, 500_000);
    assert_eq!(d.y, -4 * SCALE);
    assert_eq!(d.z, -3 * SCALE);
}

#[test]
fn test_from_conversions() {
    let q = Quaternion::from_axis_angle(Vec3D::new(0, 0, SCALE), 707_107, 707_107);
    assert_eq!(Vec3D::from(q), Vec3D::new(0, 0, 707_107));
    assert_eq!(Vec3D::from([SCALE, 2 * SCALE, 3 * SCALE]), Vec3D::new(SCALE, 2 * SCALE, 3 * SCALE));
    let triple: [i64; 3] = Vec3D::new(4, 5, 6).into();
    assert_eq!(triple, [4, 5, 6]);
}

#[test]
fn test_scalar_mul_div() {
    let a = Vec3D::new(SCALE, -2 * SCALE, 500_000);
    let m = a.mul(2 * SCALE);
    assert_eq!(m.x, 2 * SCALE);
    assert_eq!(m.y, -4 * SCALE);
    assert_eq!(m.z, SCALE);
    let d = a.div(2 * SCALE);
    assert_eq!(d.x, 500_000);
    assert_eq!(d.y, -SCALE);
    assert_eq!(d.z, 250_000);
}
