use vstd::prelude::*;
use crate::constants::{COORD_MAX, SCALE};
use crate::quaternion::{rotate_vector_spec, Quaternion};
use crate::ray::Ray;
use crate::vector::Vec3D;

verus! {

/// The eye of the scene: a position, a rotation orienting the local frame,
/// and the focal offset of the screen plane along the local forward axis.
#[derive(Clone, Copy, Debug)]
pub struct Camera {
    pub position: Vec3D,
    pub rotation: Quaternion,
    pub screen_distance: i64,
}

/// What `ray_from_position` returns: a ray out of the camera position whose
/// direction is the rotated local vector `(x, screen_distance, y)` — the
/// screen offsets span the local plane, the focal offset rides the local
/// forward axis. The direction is generally not unit length.
pub open spec fn camera_ray_spec(c: Camera, x: i64, y: i64) -> Ray {
    Ray {
        origin: c.position,
        direction: rotate_vector_spec(
            c.rotation,
            Vec3D { x, y: c.screen_distance, z: y },
        ),
    }
}

impl Camera {
    /// A well-formed camera: position inside the scene range, a rotation
    /// with unit-scale components, a bounded non-negative focal offset.
    pub open spec fn wf(self) -> bool {
        &&& self.position.in_coord_range()
        &&& self.rotation.bounded(2 * SCALE as int)
        &&& 0 <= self.screen_distance <= 2_000_000_000
    }

    pub fn new(position: Vec3D, rotation: Quaternion, screen_distance: i64) -> (r: Self)
        ensures
            r == (Camera { position, rotation, screen_distance }),
    {
        Camera { position, rotation, screen_distance }
    }

    /// The world-space ray through the screen-plane point `(x, y)`.
    pub fn ray_from_position(&self, x: i64, y: i64) -> (r: Ray)
        requires
            self.wf(),
            -2_000_000_000 <= x <= 2_000_000_000,
            -2_000_000_000 <= y <= 2_000_000_000,
        ensures
            r == camera_ray_spec(*self, x, y),
            r.origin == self.position,
            r.origin.in_coord_range(),
            r.direction.bounded(COORD_MAX as int),
    {
        let local = Vec3D { x, y: self.screen_distance, z: y };
        Ray { origin: self.position, direction: self.rotation.rotate_vector(local) }
    }
}

} // verus!
