use vstd::prelude::*;

use crate::scalar::{Scalar, Vec3S, NANOS_PER_UNIT};

verus! {

/// A point light: a position and a colour.  The renderer does not yet feed
/// it into any shading; the host pads it to the uniform layout its shaders
/// expect when uploading.
#[derive(Clone, Copy, Debug)]
pub struct Light {
    pub position: Vec3S,
    pub colour: Vec3S,
}

impl Light {
    /// A white light at the origin.
    pub fn new() -> (r: Light)
        ensures
            r.position.x.nanos == 0 && r.position.y.nanos == 0 && r.position.z.nanos == 0,
            r.colour.x.nanos == NANOS_PER_UNIT && r.colour.y.nanos == NANOS_PER_UNIT
                && r.colour.z.nanos == NANOS_PER_UNIT,
    {
        Light { position: Vec3S::zero(), colour: Vec3S::one() }
    }

    pub fn get_position(&self) -> (r: Vec3S)
        ensures
            r == self.position,
    {
        self.position
    }

    pub fn get_colour(&self) -> (r: Vec3S)
        ensures
            r == self.colour,
    {
        self.colour
    }
}

} // verus!
