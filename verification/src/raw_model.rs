use vstd::prelude::*;

verus! {

/// Element counts of one mesh resident on the graphics device: one vertex
/// buffer and one index buffer, created once at load time and never mutated.
/// The device-side buffer handles live with the host; the core keeps the
/// counts that drive indexed draws.
#[derive(Clone, Copy, PartialEq, Eq, Structural, Debug)]
pub struct RawModel {
    pub num_vertices: u32,
    pub num_indices: u32,
}

impl RawModel {
    pub fn new(num_vertices: u32, num_indices: u32) -> (r: RawModel)
        ensures
            r.num_vertices == num_vertices,
            r.num_indices == num_indices,
    {
        RawModel { num_vertices, num_indices }
    }
}

} // verus!
