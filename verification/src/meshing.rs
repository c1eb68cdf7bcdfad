//! Sizes to reserve for the buffers of a chunk mesh.
use vstd::prelude::*;

verus! {

/// How many items each mesh buffer should be able to hold.
pub struct MesherCapacities {
    pub vertices: usize,
    pub uvs: usize,
    pub texture_indices: usize,
    pub indices: usize,
}

} // verus!
