use vstd::prelude::*;
use crate::vector::Vec3D;

verus! {

/// A half-line through the scene: a starting point and a direction. The
/// direction need not be unit length; everything that reports a distance
/// measures true Euclidean distance rather than the ray parameter, so the
/// results do not depend on the direction's magnitude.
#[derive(Clone, Copy, Debug)]
pub struct Ray {
    pub origin: Vec3D,
    pub direction: Vec3D,
}

impl Ray {
    pub fn new(origin: Vec3D, direction: Vec3D) -> (r: Self)
        ensures
            r == (Ray { origin, direction }),
    {
        Ray { origin, direction }
    }
}

impl PartialEq for Ray {
    /// Rays compare approximately, component by component, like the
    /// vectors they are made of.
    fn eq(&self, other: &Self) -> (r: bool) {
        self.origin.approx(other.origin) && self.direction.approx(other.direction)
    }
}

impl vstd::std_specs::cmp::PartialEqSpecImpl for Ray {
    open spec fn obeys_eq_spec() -> bool {
        true
    }

    open spec fn eq_spec(&self, other: &Ray) -> bool {
        self.origin.eq_approx(other.origin) && self.direction.eq_approx(other.direction)
    }
}

} // verus!
