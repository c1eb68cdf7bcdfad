//! Splitting a flat index of a 16x16 plane or a 16x16x16 cube into its
//! coordinates (x varies fastest).
use vstd::prelude::*;

verus! {

/// The `(x, z)` of index `index` of a 16x16 plane stored x first.
pub fn deindex16x16(index: usize) -> (r: (usize, usize))
    ensures
        r == (index % 16, (index / 16) % 16),
{
    (index % 16, (index / 16) % 16)
}

/// The `(x, y, z)` of index `index` of a 16x16x16 cube stored in y, z, x
/// order (x the least significant, y the most).
pub fn deindex16x16x16(index: usize) -> (r: (usize, usize, usize))
    ensures
        r == (index % 16, (index / 256) % 16, (index / 16) % 16),
{
    (index % 16, (index / 256) % 16, (index / 16) % 16)
}

} // verus!
