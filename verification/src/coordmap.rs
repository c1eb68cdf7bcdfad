//! Quarter-turn rotation of cell coordinates on a square face grid.
use vstd::prelude::*;

verus! {

/// The cell that cell `(x, y)` of an `n`-by-`n` grid moves to when the grid
/// is turned `angle` quarter turns (only `angle % 4` matters). One quarter
/// turn takes `(x, y)` to `(n - 1 - y, x)`.
pub open spec fn rot(angle: u8, x: int, y: int, n: int) -> (int, int) {
    let a = angle % 4;
    if a == 0 {
        (x, y)
    } else if a == 1 {
        (n - 1 - y, x)
    } else if a == 2 {
        (n - 1 - x, n - 1 - y)
    } else {
        (y, n - 1 - x)
    }
}

/// Rotates the cell `(x, y)` of a `size`-by-`size` face grid by `angle`
/// quarter turns.
pub fn rotate_face_coord(angle: u8, x: usize, y: usize, size: usize) -> (r: (usize, usize))
    requires
        x < size,
        y < size,
    ensures
        r.0 == rot(angle, x as int, y as int, size as int).0,
        r.1 == rot(angle, x as int, y as int, size as int).1,
        r.0 < size,
        r.1 < size,
{
    let a = angle % 4;
    if a == 0 {
        (x, y)
    } else if a == 1 {
        (size - 1 - y, x)
    } else if a == 2 {
        (size - 1 - x, size - 1 - y)
    } else {
        (y, size - 1 - x)
    }
}

/// A turn by `angle` followed by a turn by the complementary angle brings
/// every cell back.
pub proof fn law_rot_inverse(angle: u8, x: int, y: int, n: int)
    ensures
        ({
            let (x1, y1) = rot(angle, x, y, n);
            rot((4 - angle % 4) as u8, x1, y1, n) == (x, y)
        }),
{
}

} // verus!
