//! Errors of the voxel engine's storage code.
use vstd::prelude::*;

verus! {

/// What can go wrong when reading or allocating region data.
#[derive(Debug, Clone, Copy, PartialEq, Eq, Hash, Structural)]
pub enum Error {
    /// No range could be allocated for a chunk.
    AllocationFailure,
    /// The input ended before the data did.
    UnexpectedEnd,
    /// The compressed data of a chunk does not fit in the largest sector.
    ChunkTooLarge,
    /// Stored data could not be decompressed.
    InvalidData,
}

} // verus!
