use vstd::prelude::*;
use crate::constants::COORD_MAX;
use crate::vector::Vec3D;

verus! {

/// A point light: a position, a scalar intensity, and a per-light choice
/// whether the intensity falls off with the square of the distance.
#[derive(Clone, Copy, Debug)]
pub struct PointLight {
    pub position: Vec3D,
    pub intensity: i64,
    pub inverse_square: bool,
}

impl PointLight {
    /// A well-formed light: position inside the scene range, intensity
    /// non-negative and bounded.
    pub open spec fn wf(self) -> bool {
        &&& self.position.in_coord_range()
        &&& 0 <= self.intensity <= COORD_MAX
    }

    pub fn new(position: Vec3D, intensity: i64, inverse_square: bool) -> (r: Self)
        ensures
            r == (PointLight { position, intensity, inverse_square }),
    {
        PointLight { position, intensity, inverse_square }
    }
}

} // verus!
