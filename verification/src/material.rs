use vstd::prelude::*;
use crate::colour::Colour;
use crate::constants::SCALE;

verus! {

/// Surface reflectance: a diffuse colour, a specular exponent (sharpness
/// of the highlight) and a pair of albedo weights splitting the response
/// between the specular and diffuse lobes.
#[derive(Clone, Copy, Debug, PartialEq, Eq, Structural)]
pub struct Material {
    pub diffuse_colour: Colour,
    pub specular_exponent: u32,
    /// Weight of the specular lobe, fixed-point in `0 ..= SCALE`.
    pub albedo_specular: i64,
    /// Weight of the diffuse lobe, fixed-point in `0 ..= SCALE`.
    pub albedo_diffuse: i64,
}

impl Material {
    /// A well-formed material: colour channels and albedo weights inside
    /// the nominal unit range.
    pub open spec fn wf(self) -> bool {
        &&& 0 <= self.diffuse_colour.red <= SCALE
        &&& 0 <= self.diffuse_colour.green <= SCALE
        &&& 0 <= self.diffuse_colour.blue <= SCALE
        &&& 0 <= self.albedo_specular <= SCALE
        &&& 0 <= self.albedo_diffuse <= SCALE
    }

    pub fn new(
        diffuse_colour: Colour,
        specular_exponent: u32,
        albedo_specular: i64,
        albedo_diffuse: i64,
    ) -> (r: Self)
        ensures
            r == (Material { diffuse_colour, specular_exponent, albedo_specular, albedo_diffuse }),
    {
        Material { diffuse_colour, specular_exponent, albedo_specular, albedo_diffuse }
    }
}

impl Default for Material {
    /// Black, matte, with no response weight at all.
    fn default() -> (r: Self)
        ensures
            r == (Material {
                diffuse_colour: Colour { red: 0i64, green: 0i64, blue: 0i64 },
                specular_exponent: 0u32,
                albedo_specular: 0i64,
                albedo_diffuse: 0i64,
            }),
            r.wf(),
    {
        Material {
            diffuse_colour: Colour { red: 0, green: 0, blue: 0 },
            specular_exponent: 0,
            albedo_specular: 0,
            albedo_diffuse: 0,
        }
    }
}

} // verus!
