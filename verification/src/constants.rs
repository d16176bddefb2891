use vstd::prelude::*;

verus! {

/// Number of fixed-point steps in one world unit: all coordinates, colour
/// channels, intensities and distances are integers scaled by this factor.
pub const SCALE: i64 = 1_000_000;

/// Shared tolerance for approximate equality of vectors, quaternions and
/// intersection positions: one thousandth of a world unit.
pub const EPSILON: i64 = 1_000;

/// Largest coordinate magnitude the geometry accepts (100 000 world units).
/// Keeping scene values inside this range makes every intermediate product
/// of the intersection and shading arithmetic fit in 128 bits and every
/// result fit in 64 bits.
pub const COORD_MAX: i64 = 100_000_000_000;

/// Largest component magnitude the vector operations accept (four times
/// `COORD_MAX`): differences of scene coordinates and rotated camera
/// directions stay inside it, and dot products of two such vectors still
/// fit in 64 bits after scaling down.
pub const VEC_MAX: i64 = 400_000_000_000;

/// Saturation bound for accumulated light intensity (one billion units of
/// brightness). Where ordinary floating-point shading would drift towards
/// infinity on extreme inputs, the fixed-point shading clamps here; the
/// tone-mapping stage maps anything this bright to full white anyway.
pub const BRIGHT_MAX: i64 = 1_000_000_000_000_000;

} // verus!
