use vstd::prelude::*;

use crate::scalar::{Scalar, NANOS_PER_UNIT};

verus! {

/// A texture resource: a numeric identity assigned at load time and used for
/// grouping, shading coefficients, and the number of rows the texture is
/// subdivided into for atlas-style sub-region selection.  The device-side
/// texture, sampler and bind set live with the host under the same identity.
#[derive(Clone, Copy, PartialEq, Eq, Structural, Debug)]
pub struct ModelTexture {
    pub id: u32,
    pub shine_damper: Scalar,
    pub reflectivity: Scalar,
    pub number_of_rows: u32,
}

impl ModelTexture {
    /// A texture with default shading: shine damper one, reflectivity zero,
    /// a single atlas row.
    pub fn new(id: u32) -> (r: ModelTexture)
        ensures
            r.id == id,
            r.shine_damper.nanos == NANOS_PER_UNIT,
            r.reflectivity.nanos == 0,
            r.number_of_rows == 1,
    {
        ModelTexture {
            id,
            shine_damper: Scalar::one(),
            reflectivity: Scalar::zero(),
            number_of_rows: 1,
        }
    }

    pub fn get_texture_id(&self) -> (r: u32)
        ensures
            r == self.id,
    {
        self.id
    }

    pub fn get_shine(&self) -> (r: Scalar)
        ensures
            r == self.shine_damper,
    {
        self.shine_damper
    }

    pub fn get_reflectivity(&self) -> (r: Scalar)
        ensures
            r == self.reflectivity,
    {
        self.reflectivity
    }

    pub fn get_number_of_rows(&self) -> (r: u32)
        ensures
            r == self.number_of_rows,
    {
        self.number_of_rows
    }
}

/// A decoded raster: width, height, and 8-bit RGBA pixels row by row.
pub struct TextureImage {
    pub width: u32,
    pub height: u32,
    pub pixels: Vec<u8>,
}

/// Failure to decode the bytes handed in as a texture.
#[derive(Clone, Copy, PartialEq, Eq, Structural, Debug)]
pub enum TextureError {
    DecodeFailed,
}

} // verus!
