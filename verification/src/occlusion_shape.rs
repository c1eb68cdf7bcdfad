//! Occlusion shapes of a block face: bit grids at four resolutions, an
//! axis-aligned rectangle, or the full or empty face. A face is a 16x16 grid;
//! the coarser grids cover it in 2x2, 4x4 or 8x8 blocks of cells.
use vstd::prelude::*;
use crate::coordmap::{rot, rotate_face_coord};
use crate::bits::{bit16, bit64, bit8, lemma_bit16_update, lemma_bit64_update, lemma_bit8_update, lemma_zero_bits};
use crate::bits::{lemma_full_masks, lemma_u16_andnot_zero, lemma_u64_andnot_zero};

verus! {

/// A 16x16 bit grid: row `y` is `self.0[y]`, column `x` is bit `x` of it.
#[derive(Debug, Default, Clone, Copy, PartialEq, Eq, Hash)]
pub struct OcclusionShape16x16(pub [u16; 16]);

impl OcclusionShape16x16 {
    /// Cell `(x, y)` is set.
    pub open spec fn cell(self, x: int, y: int) -> bool {
        bit16(self.0@[y], x as u16)
    }

    pub fn new(masks: [u16; 16]) -> (r: Self)
        ensures
            r.0@ == masks@,
    {
        Self(masks)
    }

    /// The grid whose cell `(x, y)` is set exactly when `matrix[y][x]` is
    /// not zero.
    pub fn from_matrix(matrix: [[u8; 16]; 16]) -> (r: Self)
        ensures
            forall|x: int, y: int| 0 <= x < 16 && 0 <= y < 16 ==> r.cell(x, y) == (matrix@[y]@[x] != 0),
    {
        let mut masks = [0u16; 16];
        let mut y: usize = 0;
        while y < 16
            invariant
                y <= 16,
                masks@.len() == 16,
                forall|yy: int, x: int| 0 <= yy < y && 0 <= x < 16 ==>
                    #[trigger] bit16(masks@[yy], x as u16) == (matrix@[yy]@[x] != 0),
            decreases 16 - y,
        {
            let row = matrix[y];
            let mut mask: u16 = 0;
            let mut x: usize = 0;
            proof {
                assert forall|j: int| 0 <= j < 16 implies !#[trigger] bit16(0u16, j as u16) by {
                    lemma_zero_bits(j as u64);
                }
            }
            while x < 16
                invariant
                    x <= 16,
                    row@ == matrix@[y as int]@,
                    forall|j: int| 0 <= j < x ==> #[trigger] bit16(mask, j as u16) == (row@[j] != 0),
                    forall|j: int| x <= j < 16 ==> !#[trigger] bit16(mask, j as u16),
                decreases 16 - x,
            {
                let old_mask = mask;
                if row[x] != 0 {
                    mask = mask | (1u16 << (x as u16));
                }
                proof {
                    assert forall|j: int| 0 <= j < 16 implies #[trigger] bit16(mask, j as u16) == (if j == x {
                        row@[j] != 0
                    } else {
                        bit16(old_mask, j as u16)
                    }) by {
                        lemma_bit16_update(old_mask, x as u16, j as u16);
                    }
                }
                x = x + 1;
            }
            masks[y] = mask;
            y = y + 1;
        }
        Self(masks)
    }

    pub fn get(&self, x: usize, y: usize) -> (r: bool)
        requires
            x < 16,
            y < 16,
        ensures
            r == self.cell(x as int, y as int),
    {
        let sub = self.0[y];
        sub & (1u16 << (x as u16)) != 0
    }

    /// Sets cell `(x, y)` to `value`, returning its previous value.
    pub fn set(&mut self, x: usize, y: usize, value: bool) -> (r: bool)
        requires
            x < 16,
            y < 16,
        ensures
            r == old(self).cell(x as int, y as int),
            forall|i: int, j: int| 0 <= i < 16 && 0 <= j < 16 ==>
                #[trigger] final(self).cell(i, j) == if i == x && j == y {
                    value
                } else {
                    old(self).cell(i, j)
                },
    {
        let sub = self.0[y];
        let new_sub = if value {
            sub | (1u16 << (x as u16))
        } else {
            sub & !(1u16 << (x as u16))
        };
        self.0[y] = new_sub;
        proof {
            assert forall|i: int| 0 <= i < 16 implies #[trigger] bit16(new_sub, i as u16) == if i == x {
                value
            } else {
                bit16(sub, i as u16)
            } by {
                lemma_bit16_update(sub, x as u16, i as u16);
            }
        }
        sub & (1u16 << (x as u16)) != 0
    }
}


/// Cell `(x, y)` of a 8x8 grid stored row-major in the bits of `mask`.
pub open spec fn cell8(mask: u64, x: int, y: int) -> bool {
    bit64(mask, (y * 8 + x) as u64)
}

/// A 8x8 bit grid: cell `(x, y)` is bit `y * 8 + x` of `self.0`.
#[derive(Debug, Default, Clone, Copy, PartialEq, Eq, Hash)]
pub struct OcclusionShape8x8(pub u64);

impl OcclusionShape8x8 {
    /// Cell `(x, y)` is set.
    pub open spec fn cell(self, x: int, y: int) -> bool {
        cell8(self.0, x, y)
    }

    pub fn new(mask: u64) -> (r: Self)
        ensures
            r.0 == mask,
    {
        Self(mask)
    }

    /// The grid whose cell `(x, y)` is set exactly when `matrix[y][x]` is
    /// not zero.
    pub fn from_matrix(matrix: [[u8; 8]; 8]) -> (r: Self)
        ensures
            forall|x: int, y: int| 0 <= x < 8 && 0 <= y < 8 ==> r.cell(x, y) == (matrix@[y]@[x] != 0),
    {
        let mut mask: u64 = 0;
        proof {
            assert forall|x: int, y: int| 0 <= x < 8 && 0 <= y < 8 implies !#[trigger] cell8(0, x, y) by {
                lemma_zero_bits((y * 8 + x) as u64);
            }
        }
        let mut y: usize = 0;
        while y < 8
            invariant
                y <= 8,
                forall|xx: int, yy: int| 0 <= xx < 8 && 0 <= yy < 8 ==>
                    #[trigger] cell8(mask, xx, yy) == (yy < y && matrix@[yy]@[xx] != 0),
            decreases 8 - y,
        {
            let row = matrix[y];
            let mut x: usize = 0;
            while x < 8
                invariant
                    x <= 8,
                    y < 8,
                    row@ == matrix@[y as int]@,
                    forall|xx: int, yy: int| 0 <= xx < 8 && 0 <= yy < 8 ==>
                        #[trigger] cell8(mask, xx, yy) == ((yy < y || (yy == y && xx < x)) && matrix@[yy]@[xx] != 0),
                decreases 8 - x,
            {
                let old_mask = mask;
                let index = y * 8 + x;
                if row[x] != 0 {
                    mask = mask | (1u64 << (index as u64));
                }
                proof {
                    assert forall|xx: int, yy: int| 0 <= xx < 8 && 0 <= yy < 8 implies #[trigger] cell8(mask, xx, yy)
                        == ((yy < y || (yy == y && xx <= x)) && matrix@[yy]@[xx] != 0) by {
                        lemma_bit64_update(old_mask, index as u64, (yy * 8 + xx) as u64);
                        assert((yy * 8 + xx == index) <==> (yy == y && xx == x));
                        assert(cell8(old_mask, xx, yy) == ((yy < y || (yy == y && xx < x)) && matrix@[yy]@[xx] != 0));
                        if row[x as int] == 0 {
                            assert(mask == old_mask);
                        }
                    }
                }
                x = x + 1;
            }
            y = y + 1;
        }
        Self(mask)
    }

    pub fn get(self, x: usize, y: usize) -> (r: bool)
        requires
            x < 8,
            y < 8,
        ensures
            r == self.cell(x as int, y as int),
    {
        let index = y * 8 + x;
        self.0 & (1u64 << (index as u64)) != 0
    }

    /// Sets cell `(x, y)` to `value`, returning its previous value.
    pub fn set(&mut self, x: usize, y: usize, value: bool) -> (r: bool)
        requires
            x < 8,
            y < 8,
        ensures
            r == old(self).cell(x as int, y as int),
            forall|i: int, j: int| 0 <= i < 8 && 0 <= j < 8 ==>
                #[trigger] final(self).cell(i, j) == if i == x && j == y {
                    value
                } else {
                    old(self).cell(i, j)
                },
    {
        let index = y * 8 + x;
        let old_mask = self.0;
        let old = self.0 & (1u64 << (index as u64)) != 0;
        self.0 = if value {
            self.0 | (1u64 << (index as u64))
        } else {
            self.0 & !(1u64 << (index as u64))
        };
        proof {
            assert forall|i: int, j: int| 0 <= i < 8 && 0 <= j < 8 implies #[trigger] cell8(self.0, i, j)
                == if i == x && j == y { value } else { cell8(old_mask, i, j) } by {
                lemma_bit64_update(old_mask, index as u64, (j * 8 + i) as u64);
            }
        }
        old
    }
}

/// Cell `(x, y)` of a 4x4 grid stored row-major in the bits of `mask`.
pub open spec fn cell4(mask: u16, x: int, y: int) -> bool {
    bit16(mask, (y * 4 + x) as u16)
}

/// A 4x4 bit grid: cell `(x, y)` is bit `y * 4 + x` of `self.0`.
#[derive(Debug, Default, Clone, Copy, PartialEq, Eq, Hash)]
pub struct OcclusionShape4x4(pub u16);

impl OcclusionShape4x4 {
    /// Cell `(x, y)` is set.
    pub open spec fn cell(self, x: int, y: int) -> bool {
        cell4(self.0, x, y)
    }

    pub fn new(mask: u16) -> (r: Self)
        ensures
            r.0 == mask,
    {
        Self(mask)
    }

    /// The grid whose cell `(x, y)` is set exactly when `matrix[y][x]` is
    /// not zero.
    pub fn from_matrix(matrix: [[u8; 4]; 4]) -> (r: Self)
        ensures
            forall|x: int, y: int| 0 <= x < 4 && 0 <= y < 4 ==> r.cell(x, y) == (matrix@[y]@[x] != 0),
    {
        let mut mask: u16 = 0;
        proof {
            assert forall|x: int, y: int| 0 <= x < 4 && 0 <= y < 4 implies !#[trigger] cell4(0, x, y) by {
                lemma_zero_bits((y * 4 + x) as u64);
            }
        }
        let mut y: usize = 0;
        while y < 4
            invariant
                y <= 4,
                forall|xx: int, yy: int| 0 <= xx < 4 && 0 <= yy < 4 ==>
                    #[trigger] cell4(mask, xx, yy) == (yy < y && matrix@[yy]@[xx] != 0),
            decreases 4 - y,
        {
            let row = matrix[y];
            let mut x: usize = 0;
            while x < 4
                invariant
                    x <= 4,
                    y < 4,
                    row@ == matrix@[y as int]@,
                    forall|xx: int, yy: int| 0 <= xx < 4 && 0 <= yy < 4 ==>
                        #[trigger] cell4(mask, xx, yy) == ((yy < y || (yy == y && xx < x)) && matrix@[yy]@[xx] != 0),
                decreases 4 - x,
            {
                let old_mask = mask;
                let index = y * 4 + x;
                if row[x] != 0 {
                    mask = mask | (1u16 << (index as u16));
                }
                proof {
                    assert forall|xx: int, yy: int| 0 <= xx < 4 && 0 <= yy < 4 implies #[trigger] cell4(mask, xx, yy)
                        == ((yy < y || (yy == y && xx <= x)) && matrix@[yy]@[xx] != 0) by {
                        lemma_bit16_update(old_mask, index as u16, (yy * 4 + xx) as u16);
                        assert((yy * 4 + xx == index) <==> (yy == y && xx == x));
                        assert(cell4(old_mask, xx, yy) == ((yy < y || (yy == y && xx < x)) && matrix@[yy]@[xx] != 0));
                        if row[x as int] == 0 {
                            assert(mask == old_mask);
                        }
                    }
                }
                x = x + 1;
            }
            y = y + 1;
        }
        Self(mask)
    }

    pub fn get(self, x: usize, y: usize) -> (r: bool)
        requires
            x < 4,
            y < 4,
        ensures
            r == self.cell(x as int, y as int),
    {
        let index = y * 4 + x;
        self.0 & (1u16 << (index as u16)) != 0
    }

    /// Sets cell `(x, y)` to `value`, returning its previous value.
    pub fn set(&mut self, x: usize, y: usize, value: bool) -> (r: bool)
        requires
            x < 4,
            y < 4,
        ensures
            r == old(self).cell(x as int, y as int),
            forall|i: int, j: int| 0 <= i < 4 && 0 <= j < 4 ==>
                #[trigger] final(self).cell(i, j) == if i == x && j == y {
                    value
                } else {
                    old(self).cell(i, j)
                },
    {
        let index = y * 4 + x;
        let old_mask = self.0;
        let old = self.0 & (1u16 << (index as u16)) != 0;
        self.0 = if value {
            self.0 | (1u16 << (index as u16))
        } else {
            self.0 & !(1u16 << (index as u16))
        };
        proof {
            assert forall|i: int, j: int| 0 <= i < 4 && 0 <= j < 4 implies #[trigger] cell4(self.0, i, j)
                == if i == x && j == y { value } else { cell4(old_mask, i, j) } by {
                lemma_bit16_update(old_mask, index as u16, (j * 4 + i) as u16);
            }
        }
        old
    }
}

/// Cell `(x, y)` of a 2x2 grid stored row-major in the bits of `mask`.
pub open spec fn cell2(mask: u8, x: int, y: int) -> bool {
    bit8(mask, (y * 2 + x) as u8)
}

/// A 2x2 bit grid: cell `(x, y)` is bit `y * 2 + x` of `self.0`.
#[derive(Debug, Default, Clone, Copy, PartialEq, Eq, Hash)]
pub struct OcclusionShape2x2(pub u8);

impl OcclusionShape2x2 {
    /// Cell `(x, y)` is set.
    pub open spec fn cell(self, x: int, y: int) -> bool {
        cell2(self.0, x, y)
    }

    pub fn new(mask: u8) -> (r: Self)
        ensures
            r.0 == mask,
    {
        Self(mask)
    }

    /// The grid whose cell `(x, y)` is set exactly when `matrix[y][x]` is
    /// not zero.
    pub fn from_matrix(matrix: [[u8; 2]; 2]) -> (r: Self)
        ensures
            forall|x: int, y: int| 0 <= x < 2 && 0 <= y < 2 ==> r.cell(x, y) == (matrix@[y]@[x] != 0),
    {
        let mut mask: u8 = 0;
        proof {
            assert forall|x: int, y: int| 0 <= x < 2 && 0 <= y < 2 implies !#[trigger] cell2(0, x, y) by {
                lemma_zero_bits((y * 2 + x) as u64);
            }
        }
        let mut y: usize = 0;
        while y < 2
            invariant
                y <= 2,
                forall|xx: int, yy: int| 0 <= xx < 2 && 0 <= yy < 2 ==>
                    #[trigger] cell2(mask, xx, yy) == (yy < y && matrix@[yy]@[xx] != 0),
            decreases 2 - y,
        {
            let row = matrix[y];
            let mut x: usize = 0;
            while x < 2
                invariant
                    x <= 2,
                    y < 2,
                    row@ == matrix@[y as int]@,
                    forall|xx: int, yy: int| 0 <= xx < 2 && 0 <= yy < 2 ==>
                        #[trigger] cell2(mask, xx, yy) == ((yy < y || (yy == y && xx < x)) && matrix@[yy]@[xx] != 0),
                decreases 2 - x,
            {
                let old_mask = mask;
                let index = y * 2 + x;
                if row[x] != 0 {
                    mask = mask | (1u8 << (index as u8));
                }
                proof {
                    assert forall|xx: int, yy: int| 0 <= xx < 2 && 0 <= yy < 2 implies #[trigger] cell2(mask, xx, yy)
                        == ((yy < y || (yy == y && xx <= x)) && matrix@[yy]@[xx] != 0) by {
                        lemma_bit8_update(old_mask, index as u8, (yy * 2 + xx) as u8);
                        assert((yy * 2 + xx == index) <==> (yy == y && xx == x));
                        assert(cell2(old_mask, xx, yy) == ((yy < y || (yy == y && xx < x)) && matrix@[yy]@[xx] != 0));
                        if row[x as int] == 0 {
                            assert(mask == old_mask);
                        }
                    }
                }
                x = x + 1;
            }
            y = y + 1;
        }
        Self(mask)
    }

    pub fn get(self, x: usize, y: usize) -> (r: bool)
        requires
            x < 2,
            y < 2,
        ensures
            r == self.cell(x as int, y as int),
    {
        let index = y * 2 + x;
        self.0 & (1u8 << (index as u8)) != 0
    }

    /// Sets cell `(x, y)` to `value`, returning its previous value.
    pub fn set(&mut self, x: usize, y: usize, value: bool) -> (r: bool)
        requires
            x < 2,
            y < 2,
        ensures
            r == old(self).cell(x as int, y as int),
            forall|i: int, j: int| 0 <= i < 2 && 0 <= j < 2 ==>
                #[trigger] final(self).cell(i, j) == if i == x && j == y {
                    value
                } else {
                    old(self).cell(i, j)
                },
    {
        let index = y * 2 + x;
        let old_mask = self.0;
        let old = self.0 & (1u8 << (index as u8)) != 0;
        self.0 = if value {
            self.0 | (1u8 << (index as u8))
        } else {
            self.0 & !(1u8 << (index as u8))
        };
        proof {
            assert forall|i: int, j: int| 0 <= i < 2 && 0 <= j < 2 implies #[trigger] cell2(self.0, i, j)
                == if i == x && j == y { value } else { cell2(old_mask, i, j) } by {
                lemma_bit8_update(old_mask, index as u8, (j * 2 + i) as u8);
            }
        }
        old
    }
}


/// An axis-aligned rectangle of cells on a 16x16 face: columns
/// `left..right`, rows `top..bottom`.
#[derive(Debug, Default, Clone, Copy, PartialEq, Eq, Hash, Structural)]
pub struct OcclusionRect {
    pub left: u8,
    pub top: u8,
    pub right: u8,
    pub bottom: u8,
}

/// The rectangle covering the whole face.
pub open spec fn full_rect() -> OcclusionRect {
    OcclusionRect { left: 0, top: 0, right: 16, bottom: 16 }
}

/// Cell `(x, y)` lies in the rectangle.
pub open spec fn rect_contains(r: OcclusionRect, x: int, y: int) -> bool {
    r.left <= x < r.right && r.top <= y < r.bottom
}

/// `a`'s bounds enclose `b`'s bounds.
pub open spec fn rect_contains_rect(a: OcclusionRect, b: OcclusionRect) -> bool {
    a.left <= b.left && a.top <= b.top && a.right >= b.right && a.bottom >= b.bottom
}

/// All four bounds lie on the 16x16 face.
pub open spec fn rect_on_face(r: OcclusionRect) -> bool {
    r.left <= 16 && r.top <= 16 && r.right <= 16 && r.bottom <= 16
}

/// A lower bound scaled down to a grid of `n` cells per side (rounded down).
pub open spec fn reduce_min(value: u8, n: u8) -> u8 {
    (value / (16u8 / n)) as u8
}

/// An upper bound scaled down to a grid of `n` cells per side (rounded up).
pub open spec fn reduce_max(value: u8, n: u8) -> u8 {
    let div = 16u8 / n;
    (value / div + if value % div == 0 { 0u8 } else { 1u8 }) as u8
}

/// The rectangle stretched to the cells of a grid of `n` cells per side
/// that it touches.
pub open spec fn spec_downsample(r: OcclusionRect, n: u8) -> OcclusionRect {
    OcclusionRect {
        left: reduce_min(r.left, n),
        top: reduce_min(r.top, n),
        right: reduce_max(r.right, n),
        bottom: reduce_max(r.bottom, n),
    }
}

/// The rectangle covering the cells of `r` turned `angle` quarter turns on
/// the 16x16 face (see [`rot`]).
pub open spec fn spec_rotate(r: OcclusionRect, angle: u8) -> OcclusionRect {
    let a = angle % 4;
    if a == 0 {
        r
    } else if a == 1 {
        OcclusionRect {
            left: (16 - r.bottom) as u8,
            top: r.left,
            right: (16 - r.top) as u8,
            bottom: r.right,
        }
    } else if a == 2 {
        OcclusionRect {
            left: (16 - r.right) as u8,
            top: (16 - r.bottom) as u8,
            right: (16 - r.left) as u8,
            bottom: (16 - r.top) as u8,
        }
    } else {
        OcclusionRect {
            left: r.top,
            top: (16 - r.right) as u8,
            right: r.bottom,
            bottom: (16 - r.left) as u8,
        }
    }
}

fn reduce_min_exec(value: u8, reduction: u8) -> (r: u8)
    requires
        1 <= reduction <= 16,
    ensures
        r == reduce_min(value, reduction),
{
    assert(16u8 / reduction >= 1) by (nonlinear_arith)
        requires
            1 <= reduction <= 16,
    ;
    value / (16 / reduction)
}

fn reduce_max_exec(value: u8, reduction: u8) -> (r: u8)
    requires
        1 <= reduction <= 16,
    ensures
        r == reduce_max(value, reduction),
{
    assert(16u8 / reduction >= 1) by (nonlinear_arith)
        requires
            1 <= reduction <= 16,
    ;
    let div = 16 / reduction;
    if div == 1 {
        assert(value % div == 0 && value / div == value);
    } else {
        assert(value / div <= 127) by (nonlinear_arith)
            requires
                div >= 2,
        ;
    }
    value / div + if value % div == 0 { 0 } else { 1 }
}

impl OcclusionRect {
    /// The rectangle at `(x, y)` of the given size.
    pub fn new(x: u8, y: u8, width: u8, height: u8) -> (r: Self)
        requires
            x + width <= u8::MAX,
            y + height <= u8::MAX,
        ensures
            r == (OcclusionRect { left: x, top: y, right: (x + width) as u8, bottom: (y + height) as u8 }),
    {
        Self { left: x, top: y, right: x + width, bottom: y + height }
    }

    pub fn from_min_max(min: (u8, u8), max: (u8, u8)) -> (r: Self)
        ensures
            r == (OcclusionRect { left: min.0, top: min.1, right: max.0, bottom: max.1 }),
    {
        Self { left: min.0, top: min.1, right: max.0, bottom: max.1 }
    }

    pub fn contains(self, point: (u8, u8)) -> (r: bool)
        ensures
            r == rect_contains(self, point.0 as int, point.1 as int),
    {
        self.left <= point.0 && self.right > point.0 && self.top <= point.1 && self.bottom > point.1
    }

    pub fn intersects(self, other: OcclusionRect) -> (r: bool)
        ensures
            r == (self.left < other.right && other.left < self.right && self.top < other.bottom
                && other.top < self.bottom),
    {
        self.left < other.right && other.left < self.right && self.top < other.bottom && other.top
            < self.bottom
    }

    pub fn contains_rect(self, other: OcclusionRect) -> (r: bool)
        ensures
            r == rect_contains_rect(self, other),
    {
        self.left <= other.left && self.top <= other.top && self.right >= other.right && self.bottom
            >= other.bottom
    }

    /// Reduces the rectangle to a grid of `sample_size` cells per side,
    /// stretching the bounds to cover every cell the rectangle touches.
    pub fn downsample(self, sample_size: u8) -> (r: Self)
        requires
            1 <= sample_size <= 16,
        ensures
            r == spec_downsample(self, sample_size),
    {
        Self {
            left: reduce_min_exec(self.left, sample_size),
            top: reduce_min_exec(self.top, sample_size),
            right: reduce_max_exec(self.right, sample_size),
            bottom: reduce_max_exec(self.bottom, sample_size),
        }
    }

    /// Turns the rectangle `angle` quarter turns on the face.
    pub fn rotate(self, angle: u8) -> (r: Self)
        requires
            rect_on_face(self),
        ensures
            r == spec_rotate(self, angle),
            rect_on_face(r),
    {
        let a = angle % 4;
        if a == 0 {
            self
        } else if a == 1 {
            Self { left: 16 - self.bottom, top: self.left, right: 16 - self.top, bottom: self.right }
        } else if a == 2 {
            Self {
                left: 16 - self.right,
                top: 16 - self.bottom,
                right: 16 - self.left,
                bottom: 16 - self.top,
            }
        } else {
            Self { left: self.top, top: 16 - self.right, right: self.bottom, bottom: 16 - self.left }
        }
    }
}

/// The occlusion shape of one block face.
#[derive(Debug, Clone, Copy, PartialEq, Eq, Hash)]
pub enum OcclusionShape {
    S16x16(OcclusionShape16x16),
    S8x8(OcclusionShape8x8),
    S4x4(OcclusionShape4x4),
    S2x2(OcclusionShape2x2),
    Rect(OcclusionRect),
    Full,
    Empty,
}

/// The shape is one of the four bit grids.
pub open spec fn is_grid(s: OcclusionShape) -> bool {
    s is S16x16 || s is S8x8 || s is S4x4 || s is S2x2
}

/// Cells per side of a grid shape.
pub open spec fn shape_res(s: OcclusionShape) -> int {
    match s {
        OcclusionShape::S16x16(_) => 16,
        OcclusionShape::S8x8(_) => 8,
        OcclusionShape::S4x4(_) => 4,
        OcclusionShape::S2x2(_) => 2,
        _ => 0,
    }
}

/// Cell `(x, y)` of a grid shape is set.
pub open spec fn shape_cell(s: OcclusionShape, x: int, y: int) -> bool {
    match s {
        OcclusionShape::S16x16(m) => m.cell(x, y),
        OcclusionShape::S8x8(m) => m.cell(x, y),
        OcclusionShape::S4x4(m) => m.cell(x, y),
        OcclusionShape::S2x2(m) => m.cell(x, y),
        _ => false,
    }
}

/// Face cells per side of one cell of an `n`-cell grid (`16 / n`).
pub open spec fn cell_width(n: int) -> int {
    if n == 16 {
        1
    } else if n == 8 {
        2
    } else if n == 4 {
        4
    } else {
        8
    }
}

/// The grid shape `s`, turned `angle` quarter turns, covers the point
/// `(px, py)` of the 16x16 face: the cell of `s` that the point falls in,
/// after the turn, is set.
pub open spec fn grid_covers(s: OcclusionShape, angle: u8, px: int, py: int) -> bool {
    let n = shape_res(s);
    let k = cell_width(n);
    let c = rot(angle, px / k, py / k, n);
    shape_cell(s, c.0, c.1)
}

/// Every face point covered by grid `l` (turned `a`) is covered by grid `r`
/// (turned `b`).
pub open spec fn grid_in_grid(l: OcclusionShape, a: u8, r: OcclusionShape, b: u8) -> bool {
    forall|px: int, py: int| 0 <= px < 16 && 0 <= py < 16 ==> #[trigger] grid_covers(l, a, px, py) ==> grid_covers(r, b, px, py)
}

/// The 16x16 face cells under cell `(qx, qy)` of a grid whose cells are
/// `k` face cells wide.
pub open spec fn cell_block(qx: int, qy: int, k: int) -> OcclusionRect {
    OcclusionRect {
        left: (qx * k) as u8,
        top: (qy * k) as u8,
        right: (qx * k + k) as u8,
        bottom: (qy * k + k) as u8,
    }
}

/// Every set cell of grid `l` (turned `a`) lies, with all of its face cells,
/// inside the rectangle `rr`.
pub open spec fn grid_in_rect(l: OcclusionShape, a: u8, rr: OcclusionRect) -> bool {
    let n = shape_res(l);
    forall|qx: int, qy: int| 0 <= qx < n && 0 <= qy < n ==> #[trigger] grid_cell_turned(l, a, qx, qy) ==> rect_contains_rect(rr, cell_block(qx, qy, cell_width(n)))
}

/// Cell `(qx, qy)` of grid `s` turned `angle` quarter turns is set.
pub open spec fn grid_cell_turned(s: OcclusionShape, angle: u8, qx: int, qy: int) -> bool {
    let c = rot(angle, qx, qy, shape_res(s));
    shape_cell(s, c.0, c.1)
}

/// Every cell of the rectangle `sample` (in the grid's own resolution) is a
/// set cell of grid `r` turned `b`.
pub open spec fn rect_in_grid(sample: OcclusionRect, r: OcclusionShape, b: u8) -> bool {
    forall|qx: int, qy: int| rect_contains(sample, qx, qy) ==> #[trigger] grid_cell_turned(r, b, qx, qy)
}

/// What a full face needs from `r` to count as occluded by it.
pub open spec fn full_covered(r: OcclusionShape) -> bool {
    match r {
        OcclusionShape::S16x16(m) => forall|y: int| 0 <= y < 16 ==> #[trigger] m.0@[y] == 0xFFFFu16,
        OcclusionShape::S8x8(m) => m.0 == 0xFFFF_FFFF_FFFF_FFFFu64,
        OcclusionShape::S4x4(m) => m.0 == 0xFFFFu16,
        OcclusionShape::S2x2(m) => m.0 & 0xFu8 == 0xFu8,
        OcclusionShape::Rect(x) => x == full_rect(),
        _ => true,
    }
}

/// The shape covers its whole face.
pub open spec fn spec_fully_occluded(s: OcclusionShape) -> bool {
    match s {
        OcclusionShape::S16x16(m) => forall|y: int| 0 <= y < 16 ==> #[trigger] m.0@[y] == 0xFFFFu16,
        OcclusionShape::S8x8(m) => m.0 == 0xFFFF_FFFF_FFFF_FFFFu64,
        OcclusionShape::S4x4(m) => m.0 == 0xFFFFu16,
        OcclusionShape::S2x2(m) => m.0 == 0xFu8,
        OcclusionShape::Rect(x) => x == full_rect(),
        OcclusionShape::Full => true,
        OcclusionShape::Empty => false,
    }
}

/// The shape covers any part of its face.
pub open spec fn spec_occludes(s: OcclusionShape) -> bool {
    match s {
        OcclusionShape::S16x16(m) => exists|y: int| 0 <= y < 16 && #[trigger] m.0@[y] != 0,
        OcclusionShape::S8x8(m) => m.0 != 0,
        OcclusionShape::S4x4(m) => m.0 != 0,
        OcclusionShape::S2x2(m) => m.0 != 0,
        OcclusionShape::Rect(_) => true,
        OcclusionShape::Full => true,
        OcclusionShape::Empty => false,
    }
}

/// A rectangle shape lies on the 16x16 face.
pub open spec fn shape_on_face(s: OcclusionShape) -> bool {
    s matches OcclusionShape::Rect(r) ==> rect_on_face(r)
}

/// Shape `l` turned `a` quarter turns is occluded by shape `r` turned `b`.
pub open spec fn spec_occluded_by(l: OcclusionShape, r: OcclusionShape, a: u8, b: u8) -> bool {
    if r is Empty {
        false
    } else if r is Full {
        true
    } else {
        match l {
            OcclusionShape::Full => full_covered(r),
            OcclusionShape::Empty => spec_fully_occluded(r),
            OcclusionShape::Rect(lr) => match r {
                OcclusionShape::Rect(rr) => rect_contains_rect(spec_rotate(rr, b), spec_rotate(lr, a)),
                _ => rect_in_grid(spec_downsample(spec_rotate(lr, a), shape_res(r) as u8), r, b),
            },
            _ => match r {
                OcclusionShape::Rect(rr) => grid_in_rect(l, a, spec_rotate(rr, b)),
                _ => grid_in_grid(l, a, r, b),
            },
        }
    }
}

/// A face bound scaled down to an `n`-cell grid stays on that grid.
pub proof fn lemma_downsample_on_grid(r: OcclusionRect, n: u8)
    requires
        rect_on_face(r),
        n == 16 || n == 8 || n == 4 || n == 2,
    ensures
        spec_downsample(r, n).left <= n,
        spec_downsample(r, n).top <= n,
        spec_downsample(r, n).right <= n,
        spec_downsample(r, n).bottom <= n,
{
    if n == 16 {
        assert(16u8 / n == 1);
    } else if n == 8 {
        assert(16u8 / n == 2);
    } else if n == 4 {
        assert(16u8 / n == 4);
    } else {
        assert(16u8 / n == 8);
    }
}

/// Face cells per side of one cell of an `n`-cell grid.
fn grid_cell_width(n: usize) -> (k: usize)
    requires
        n == 16 || n == 8 || n == 4 || n == 2,
    ensures
        k == cell_width(n as int),
        k * n == 16,
{
    if n == 16 {
        1
    } else if n == 8 {
        2
    } else if n == 4 {
        4
    } else {
        8
    }
}

/// Whether every face point covered by grid `l` (turned `a`) is covered by
/// grid `r` (turned `b`).
fn grid_in_grid_exec(l: &OcclusionShape, a: u8, r: &OcclusionShape, b: u8) -> (res: bool)
    requires
        is_grid(*l),
        is_grid(*r),
    ensures
        res == grid_in_grid(*l, a, *r, b),
{
    let mut py: usize = 0;
    while py < 16
        invariant
            py <= 16,
            is_grid(*l),
            is_grid(*r),
            forall|x: int, y: int| 0 <= x < 16 && 0 <= y < py ==> #[trigger] grid_covers(*l, a, x, y) ==> grid_covers(*r, b, x, y),
        decreases 16 - py,
    {
        let mut px: usize = 0;
        while px < 16
            invariant
                px <= 16,
                py < 16,
                is_grid(*l),
                is_grid(*r),
                forall|x: int, y: int| 0 <= x < 16 && 0 <= y < py ==> #[trigger] grid_covers(*l, a, x, y) ==> grid_covers(*r, b, x, y),
                forall|x: int| 0 <= x < px ==> #[trigger] grid_covers(*l, a, x, py as int) ==> grid_covers(*r, b, x, py as int),
            decreases 16 - px,
        {
            if l.grid_covers_exec(a, px, py) && !r.grid_covers_exec(b, px, py) {
                return false;
            }
            px = px + 1;
        }
        py = py + 1;
    }
    true
}

/// Whether every set cell of grid `l` (turned `a`) lies inside `rr`.
fn grid_in_rect_exec(l: &OcclusionShape, a: u8, rr: OcclusionRect) -> (res: bool)
    requires
        is_grid(*l),
    ensures
        res == grid_in_rect(*l, a, rr),
{
    let n = l.grid_res();
    let k = grid_cell_width(n);
    let mut qy: usize = 0;
    while qy < n
        invariant
            qy <= n,
            n == shape_res(*l),
            k == cell_width(n as int),
            k * n == 16,
            is_grid(*l),
            forall|x: int, y: int| 0 <= x < n && 0 <= y < qy ==> #[trigger] grid_cell_turned(*l, a, x, y) ==> rect_contains_rect(rr, cell_block(x, y, k as int)),
        decreases n - qy,
    {
        let mut qx: usize = 0;
        while qx < n
            invariant
                qx <= n,
                qy < n,
                n == shape_res(*l),
                k == cell_width(n as int),
                k * n == 16,
                is_grid(*l),
                forall|x: int, y: int| 0 <= x < n && 0 <= y < qy ==> #[trigger] grid_cell_turned(*l, a, x, y) ==> rect_contains_rect(rr, cell_block(x, y, k as int)),
                forall|x: int| 0 <= x < qx ==> #[trigger] grid_cell_turned(*l, a, x, qy as int) ==> rect_contains_rect(rr, cell_block(x, qy as int, k as int)),
            decreases n - qx,
        {
            if l.grid_cell_turned_exec(a, qx, qy) {
                assert(qx * k + k <= 16 && qy * k + k <= 16) by (nonlinear_arith)
                    requires
                        qx < n,
                        qy < n,
                        k * n == 16,
                ;
                let x0 = (qx * k) as u8;
                let y0 = (qy * k) as u8;
                let kk = k as u8;
                let inner = OcclusionRect::from_min_max((x0, y0), (x0 + kk, y0 + kk));
                assert(inner == cell_block(qx as int, qy as int, k as int));
                if !rr.contains_rect(inner) {
                    return false;
                }
            }
            qx = qx + 1;
        }
        qy = qy + 1;
    }
    true
}

/// Whether every cell of `sample` is a set cell of grid `r` turned `b`.
fn rect_in_grid_exec(sample: OcclusionRect, r: &OcclusionShape, b: u8) -> (res: bool)
    requires
        is_grid(*r),
        sample.right <= shape_res(*r),
        sample.bottom <= shape_res(*r),
    ensures
        res == rect_in_grid(sample, *r, b),
{
    let mut y: u8 = sample.top;
    while y < sample.bottom
        invariant
            sample.top <= y,
            y <= sample.bottom || sample.top > sample.bottom,
            is_grid(*r),
            sample.right <= shape_res(*r),
            sample.bottom <= shape_res(*r),
            forall|qx: int, qy: int| rect_contains(sample, qx, qy) && qy < y ==> #[trigger] grid_cell_turned(*r, b, qx, qy),
        decreases sample.bottom - y,
    {
        let mut x: u8 = sample.left;
        while x < sample.right
            invariant
                sample.left <= x,
                x <= sample.right || sample.left > sample.right,
                sample.top <= y < sample.bottom,
                is_grid(*r),
                sample.right <= shape_res(*r),
                sample.bottom <= shape_res(*r),
                forall|qx: int, qy: int| rect_contains(sample, qx, qy) && qy < y ==> #[trigger] grid_cell_turned(*r, b, qx, qy),
                forall|qx: int| sample.left <= qx < x ==> #[trigger] grid_cell_turned(*r, b, qx, y as int),
            decreases sample.right - x,
        {
            if !r.grid_cell_turned_exec(b, x as usize, y as usize) {
                return false;
            }
            x = x + 1;
        }
        y = y + 1;
    }
    true
}

/// Whether a full face is occluded by the shape `r`.
fn full_covered_exec(r: &OcclusionShape) -> (res: bool)
    ensures
        res == full_covered(*r),
{
    match r {
        OcclusionShape::S16x16(m) => all_rows_full(m),
        OcclusionShape::S8x8(m) => m.0 == u64::MAX,
        OcclusionShape::S4x4(m) => m.0 == u16::MAX,
        OcclusionShape::S2x2(m) => m.0 & 0xF == 0xF,
        OcclusionShape::Rect(x) => *x == OcclusionRect { left: 0, top: 0, right: 16, bottom: 16 },
        _ => true,
    }
}

/// Whether some row of the 16x16 grid has a bit set.
fn any_row_set(m: &OcclusionShape16x16) -> (res: bool)
    ensures
        res == exists|y: int| 0 <= y < 16 && #[trigger] m.0@[y] != 0,
{
    let mut y: usize = 0;
    while y < 16
        invariant
            y <= 16,
            forall|yy: int| 0 <= yy < y ==> #[trigger] m.0@[yy] == 0,
        decreases 16 - y,
    {
        if m.0[y] != 0 {
            assert(m.0@[y as int] != 0);
            return true;
        }
        y = y + 1;
    }
    false
}

/// Whether every row of the 16x16 grid is all ones.
fn all_rows_full(m: &OcclusionShape16x16) -> (res: bool)
    ensures
        res == forall|y: int| 0 <= y < 16 ==> #[trigger] m.0@[y] == 0xFFFFu16,
{
    let mut y: usize = 0;
    while y < 16
        invariant
            y <= 16,
            forall|yy: int| 0 <= yy < y ==> #[trigger] m.0@[yy] == 0xFFFFu16,
        decreases 16 - y,
    {
        if m.0[y] != u16::MAX {
            return false;
        }
        y = y + 1;
    }
    true
}

impl OcclusionShape {
    pub fn is_empty(&self) -> (r: bool)
        ensures
            r == (*self is Empty),
    {
        matches!(self, OcclusionShape::Empty)
    }

    pub fn is_full(&self) -> (r: bool)
        ensures
            r == (*self is Full),
    {
        matches!(self, OcclusionShape::Full)
    }

    /// Cells per side of a grid shape.
    fn grid_res(&self) -> (n: usize)
        requires
            is_grid(*self),
        ensures
            n == shape_res(*self),
    {
        match self {
            OcclusionShape::S16x16(_) => 16,
            OcclusionShape::S8x8(_) => 8,
            OcclusionShape::S4x4(_) => 4,
            _ => 2,
        }
    }

    /// Cell `(x, y)` of a grid shape.
    fn grid_cell(&self, x: usize, y: usize) -> (r: bool)
        requires
            is_grid(*self),
            x < shape_res(*self),
            y < shape_res(*self),
        ensures
            r == shape_cell(*self, x as int, y as int),
    {
        match self {
            OcclusionShape::S16x16(m) => m.get(x, y),
            OcclusionShape::S8x8(m) => m.get(x, y),
            OcclusionShape::S4x4(m) => m.get(x, y),
            OcclusionShape::S2x2(m) => m.get(x, y),
            _ => false,
        }
    }

    /// Cell `(qx, qy)` of a grid shape turned `angle` quarter turns.
    fn grid_cell_turned_exec(&self, angle: u8, qx: usize, qy: usize) -> (r: bool)
        requires
            is_grid(*self),
            qx < shape_res(*self),
            qy < shape_res(*self),
        ensures
            r == grid_cell_turned(*self, angle, qx as int, qy as int),
    {
        let n = self.grid_res();
        let (cx, cy) = rotate_face_coord(angle, qx, qy, n);
        self.grid_cell(cx, cy)
    }

    /// Whether the grid shape turned `angle` covers face point `(px, py)`.
    fn grid_covers_exec(&self, angle: u8, px: usize, py: usize) -> (r: bool)
        requires
            is_grid(*self),
            px < 16,
            py < 16,
        ensures
            r == grid_covers(*self, angle, px as int, py as int),
    {
        let n = self.grid_res();
        let k = grid_cell_width(n);
        let (cx, cy) = rotate_face_coord(angle, px / k, py / k, n);
        self.grid_cell(cx, cy)
    }

    /// Whether the shape covers its whole face.
    pub fn fully_occluded(&self) -> (r: bool)
        ensures
            r == spec_fully_occluded(*self),
    {
        self.is_full() || match self {
            OcclusionShape::S16x16(shape) => all_rows_full(shape),
            OcclusionShape::S8x8(shape) => shape.0 == u64::MAX,
            OcclusionShape::S4x4(shape) => shape.0 == u16::MAX,
            OcclusionShape::S2x2(shape) => shape.0 == 0b1111,
            OcclusionShape::Rect(rect) => *rect == OcclusionRect::new(0, 0, 16, 16),
            OcclusionShape::Full => true,
            OcclusionShape::Empty => false,
        }
    }

    /// Whether the shape covers any part of its face.
    pub fn occludes(&self) -> (r: bool)
        ensures
            r == spec_occludes(*self),
    {
        match *self {
            OcclusionShape::S16x16(shape) => any_row_set(&shape),
            OcclusionShape::S8x8(shape) => shape.0 != 0,
            OcclusionShape::S4x4(shape) => shape.0 != 0,
            OcclusionShape::S2x2(shape) => shape.0 != 0,
            OcclusionShape::Rect(_) => true,
            OcclusionShape::Full => true,
            OcclusionShape::Empty => false,
        }
    }

    /// Whether this shape, turned `angle` quarter turns, is occluded by
    /// `other` turned `other_angle` quarter turns. A rectangle tested
    /// against an 8x8, 4x4 or 2x2 grid is first scaled down to that grid
    /// (see [`spec_downsample`]), and its cells are looked up there, so no
    /// lookup falls outside the grid.
    pub fn occluded_by(&self, other: &OcclusionShape, angle: u8, other_angle: u8) -> (r: bool)
        requires
            !(*other is Empty) && !(*other is Full) ==> shape_on_face(*self) && shape_on_face(*other),
        ensures
            r == spec_occluded_by(*self, *other, angle, other_angle),
    {
        if other.is_empty() {
            return false;
        }
        if other.is_full() {
            return true;
        }
        match self {
            OcclusionShape::Full => full_covered_exec(other),
            OcclusionShape::Empty => other.fully_occluded(),
            OcclusionShape::Rect(shape) => match other {
                OcclusionShape::Rect(other_rect) => {
                    let shape = shape.rotate(angle);
                    let other_rect = other_rect.rotate(other_angle);
                    other_rect.contains_rect(shape)
                },
                _ => {
                    let n = other.grid_res();
                    let sample = shape.rotate(angle).downsample(n as u8);
                    proof {
                        lemma_downsample_on_grid(spec_rotate(*shape, angle), n as u8);
                    }
                    rect_in_grid_exec(sample, other, other_angle)
                },
            },
            _ => match other {
                OcclusionShape::Rect(other_rect) => grid_in_rect_exec(self, angle, other_rect.rotate(other_angle)),
                _ => grid_in_grid_exec(self, angle, other, other_angle),
            },
        }
    }
}

impl From<OcclusionShape2x2> for OcclusionShape {
    fn from(value: OcclusionShape2x2) -> (r: OcclusionShape) {
        OcclusionShape::S2x2(value)
    }
}

impl vstd::std_specs::convert::FromSpecImpl<OcclusionShape2x2> for OcclusionShape {
    open spec fn obeys_from_spec() -> bool {
        true
    }

    open spec fn from_spec(v: OcclusionShape2x2) -> OcclusionShape {
        OcclusionShape::S2x2(v)
    }
}

impl From<OcclusionShape4x4> for OcclusionShape {
    fn from(value: OcclusionShape4x4) -> (r: OcclusionShape) {
        OcclusionShape::S4x4(value)
    }
}

impl vstd::std_specs::convert::FromSpecImpl<OcclusionShape4x4> for OcclusionShape {
    open spec fn obeys_from_spec() -> bool {
        true
    }

    open spec fn from_spec(v: OcclusionShape4x4) -> OcclusionShape {
        OcclusionShape::S4x4(v)
    }
}

impl From<OcclusionShape8x8> for OcclusionShape {
    fn from(value: OcclusionShape8x8) -> (r: OcclusionShape) {
        OcclusionShape::S8x8(value)
    }
}

impl vstd::std_specs::convert::FromSpecImpl<OcclusionShape8x8> for OcclusionShape {
    open spec fn obeys_from_spec() -> bool {
        true
    }

    open spec fn from_spec(v: OcclusionShape8x8) -> OcclusionShape {
        OcclusionShape::S8x8(v)
    }
}

impl From<OcclusionShape16x16> for OcclusionShape {
    fn from(value: OcclusionShape16x16) -> (r: OcclusionShape) {
        OcclusionShape::S16x16(value)
    }
}

impl vstd::std_specs::convert::FromSpecImpl<OcclusionShape16x16> for OcclusionShape {
    open spec fn obeys_from_spec() -> bool {
        true
    }

    open spec fn from_spec(v: OcclusionShape16x16) -> OcclusionShape {
        OcclusionShape::S16x16(v)
    }
}

/// Point `(px, py)` of the 16x16 face is covered by shape `s` (in its own
/// orientation): every point by a full face, none by an empty one, the
/// points inside a rectangle, and the points whose grid cell is set.
pub open spec fn covers_point(s: OcclusionShape, px: int, py: int) -> bool {
    match s {
        OcclusionShape::Full => true,
        OcclusionShape::Empty => false,
        OcclusionShape::Rect(r) => rect_contains(r, px, py),
        _ => grid_covers(s, 0, px, py),
    }
}

/// Every point of the 16x16 face is covered by `s`.
pub open spec fn covers_face(s: OcclusionShape) -> bool {
    forall|px: int, py: int| 0 <= px < 16 && 0 <= py < 16 ==> #[trigger] covers_point(s, px, py)
}

/// An 8x8 grid covers the face exactly when all 64 cells are set.
proof fn lemma_face_8x8(m: u64)
    ensures
        covers_face(OcclusionShape::S8x8(OcclusionShape8x8(m))) == (m == 0xFFFF_FFFF_FFFF_FFFFu64),
{
    let s = OcclusionShape::S8x8(OcclusionShape8x8(m));
    lemma_full_masks();
    lemma_u64_andnot_zero(0xFFFF_FFFF_FFFF_FFFFu64, m);
    if covers_face(s) {
        assert forall|i: u64| i < 64 implies (#[trigger] bit64(0xFFFF_FFFF_FFFF_FFFFu64, i) ==> bit64(m, i)) by {
            let x = (i % 8) as int;
            let y = (i / 8) as int;
            assert(covers_point(s, 2 * x, 2 * y));
            assert((2 * x) / 2 == x && (2 * y) / 2 == y);
            assert((y * 8 + x) as u64 == i);
        }
    }
    if m == 0xFFFF_FFFF_FFFF_FFFFu64 {
        assert forall|px: int, py: int| 0 <= px < 16 && 0 <= py < 16 implies #[trigger] covers_point(s, px, py) by {
            let i = ((py / 2) * 8 + px / 2) as u64;
            assert(i < 64);
            assert(bit64(0xFFFF_FFFF_FFFF_FFFFu64, i));
        }
    }
}

/// A 4x4 grid covers the face exactly when all 16 cells are set.
proof fn lemma_face_4x4(m: u16)
    ensures
        covers_face(OcclusionShape::S4x4(OcclusionShape4x4(m))) == (m == 0xFFFFu16),
{
    let s = OcclusionShape::S4x4(OcclusionShape4x4(m));
    lemma_full_masks();
    lemma_u16_andnot_zero(0xFFFFu16, m);
    if covers_face(s) {
        assert forall|i: u16| i < 16 implies (#[trigger] bit16(0xFFFFu16, i) ==> bit16(m, i)) by {
            let x = (i % 4) as int;
            let y = (i / 4) as int;
            assert(covers_point(s, 4 * x, 4 * y));
            assert((4 * x) / 4 == x && (4 * y) / 4 == y);
            assert((y * 4 + x) as u16 == i);
        }
    }
    if m == 0xFFFFu16 {
        assert forall|px: int, py: int| 0 <= px < 16 && 0 <= py < 16 implies #[trigger] covers_point(s, px, py) by {
            let i = ((py / 4) * 4 + px / 4) as u16;
            assert(i < 16);
            assert(bit16(0xFFFFu16, i));
        }
    }
}

/// A 2x2 grid covers the face exactly when its four cells are set.
proof fn lemma_face_2x2(m: u8)
    ensures
        covers_face(OcclusionShape::S2x2(OcclusionShape2x2(m)))
            == (bit8(m, 0) && bit8(m, 1) && bit8(m, 2) && bit8(m, 3)),
{
    let s = OcclusionShape::S2x2(OcclusionShape2x2(m));
    if covers_face(s) {
        assert(covers_point(s, 0, 0));
        assert(covers_point(s, 8, 0));
        assert(covers_point(s, 0, 8));
        assert(covers_point(s, 8, 8));
    }
    if bit8(m, 0) && bit8(m, 1) && bit8(m, 2) && bit8(m, 3) {
        assert forall|px: int, py: int| 0 <= px < 16 && 0 <= py < 16 implies #[trigger] covers_point(s, px, py) by {
            let x = px / 8;
            let y = py / 8;
            assert(0 <= x < 2 && 0 <= y < 2);
        }
    }
}

/// A 16x16 grid covers the face exactly when every row has all 16 bits set.
proof fn lemma_face_16x16(m: OcclusionShape16x16)
    requires
        m.0@.len() == 16,
    ensures
        covers_face(OcclusionShape::S16x16(m)) == (forall|y: int| 0 <= y < 16 ==> #[trigger] m.0@[y] == 0xFFFFu16),
{
    let s = OcclusionShape::S16x16(m);
    lemma_full_masks();
    if covers_face(s) {
        assert forall|y: int| 0 <= y < 16 implies #[trigger] m.0@[y] == 0xFFFFu16 by {
            lemma_u16_andnot_zero(0xFFFFu16, m.0@[y]);
            assert forall|x: u16| x < 16 implies (#[trigger] bit16(0xFFFFu16, x) ==> bit16(m.0@[y], x)) by {
                assert(covers_point(s, x as int, y));
            }
        }
    }
    if forall|y: int| 0 <= y < 16 ==> #[trigger] m.0@[y] == 0xFFFFu16 {
        assert forall|px: int, py: int| 0 <= px < 16 && 0 <= py < 16 implies #[trigger] covers_point(s, px, py) by {
            assert(m.0@[py] == 0xFFFFu16);
            assert(bit16(0xFFFFu16, px as u16));
        }
    }
}

/// A rectangle on the face covers the whole face exactly when it is the
/// full rectangle `(0, 0)..(16, 16)`.
proof fn lemma_face_rect(r: OcclusionRect)
    requires
        rect_on_face(r),
    ensures
        covers_face(OcclusionShape::Rect(r)) == (r == full_rect()),
{
    let s = OcclusionShape::Rect(r);
    if covers_face(s) {
        assert(covers_point(s, 0, 0));
        assert(covers_point(s, 15, 15));
    }
}

/// A shape reports itself fully occluded ([`OcclusionShape::fully_occluded`],
/// and so an empty face is occluded by it) exactly when it covers every
/// point of the 16x16 face. Rectangles are taken with their bounds on the
/// face and 2x2 grids with no bit above the four cells.
pub proof fn law_fully_occluded_covers_face(s: OcclusionShape, a: u8, b: u8)
    requires
        s is Rect ==> rect_on_face(s->Rect_0),
        s is S16x16 ==> s->S16x16_0.0@.len() == 16,
        s is S2x2 ==> s->S2x2_0.0 < 16,
    ensures
        spec_fully_occluded(s) == covers_face(s),
        spec_occluded_by(OcclusionShape::Empty, s, a, b) == covers_face(s),
{
    lemma_full_masks();
    match s {
        OcclusionShape::S16x16(m) => lemma_face_16x16(m),
        OcclusionShape::S8x8(m) => lemma_face_8x8(m.0),
        OcclusionShape::S4x4(m) => lemma_face_4x4(m.0),
        OcclusionShape::S2x2(m) => {
            lemma_face_2x2(m.0);
            assert(m.0 & (1u8 << 0u8) == m.0 & (1u8 << 0u8));
        },
        OcclusionShape::Rect(r) => lemma_face_rect(r),
        OcclusionShape::Full => {},
        OcclusionShape::Empty => {
            assert(!covers_point(s, 0, 0));
        },
    }
}

/// A full face is occluded by a shape ([`OcclusionShape::occluded_by`] on
/// [`OcclusionShape::Full`], in any orientation) exactly when that shape
/// covers every point of the 16x16 face. Rectangles are taken with their
/// bounds on the face.
pub proof fn law_full_face_occluded_covers_face(r: OcclusionShape, a: u8, b: u8)
    requires
        r is Rect ==> rect_on_face(r->Rect_0),
        r is S16x16 ==> r->S16x16_0.0@.len() == 16,
    ensures
        spec_occluded_by(OcclusionShape::Full, r, a, b) == covers_face(r),
{
    lemma_full_masks();
    match r {
        OcclusionShape::S16x16(m) => lemma_face_16x16(m),
        OcclusionShape::S8x8(m) => lemma_face_8x8(m.0),
        OcclusionShape::S4x4(m) => lemma_face_4x4(m.0),
        OcclusionShape::S2x2(m) => {
            lemma_face_2x2(m.0);
            assert(m.0 & 0xFu8 == m.0 & 0xFu8);
        },
        OcclusionShape::Rect(x) => lemma_face_rect(x),
        OcclusionShape::Full => {},
        OcclusionShape::Empty => {
            assert(!covers_point(r, 0, 0));
        },
    }
}

/// Turning a rectangle on the face `angle` quarter turns moves each of its
/// cells as a cell of the 16x16 face turns ([`rot`], what
/// `rotate_face_coord` does): a cell lies in the rectangle exactly when its
/// turned cell lies in the turned rectangle.
pub proof fn law_rotate_moves_cells(r: OcclusionRect, angle: u8, px: int, py: int)
    requires
        rect_on_face(r),
        0 <= px < 16,
        0 <= py < 16,
    ensures
        rect_contains(spec_rotate(r, angle), rot(angle, px, py, 16).0, rot(angle, px, py, 16).1)
            == rect_contains(r, px, py),
        rect_on_face(spec_rotate(r, angle)),
{
}

/// Point `(px, py)` of the 16x16 face is covered by shape `s` turned
/// `angle` quarter turns.
pub open spec fn covers_turned(s: OcclusionShape, angle: u8, px: int, py: int) -> bool {
    match s {
        OcclusionShape::Full => true,
        OcclusionShape::Empty => false,
        OcclusionShape::Rect(r) => rect_contains(spec_rotate(r, angle), px, py),
        _ => grid_covers(s, angle, px, py),
    }
}

/// Every point of the face that `l` (turned `a`) covers is covered by `r`
/// (turned `b`).
pub open spec fn covered_pointwise(l: OcclusionShape, a: u8, r: OcclusionShape, b: u8) -> bool {
    forall|px: int, py: int| 0 <= px < 16 && 0 <= py < 16 && #[trigger] covers_turned(l, a, px, py) ==> covers_turned(r, b, px, py)
}

/// Rectangle against rectangle.
proof fn lemma_pointwise_rect_rect(lr: OcclusionRect, rr: OcclusionRect, a: u8, b: u8)
    requires
        rect_on_face(lr),
        rect_on_face(rr),
        lr.left < lr.right,
        lr.top < lr.bottom,
    ensures
        rect_contains_rect(spec_rotate(rr, b), spec_rotate(lr, a))
            == covered_pointwise(OcclusionShape::Rect(lr), a, OcclusionShape::Rect(rr), b),
{
    let l = OcclusionShape::Rect(lr);
    let r = OcclusionShape::Rect(rr);
    let ll = spec_rotate(lr, a);
    let rl = spec_rotate(rr, b);
    assert(ll.left < ll.right && ll.top < ll.bottom && rect_on_face(ll));
    if covered_pointwise(l, a, r, b) {
        assert(covers_turned(l, a, ll.left as int, ll.top as int));
        assert(covers_turned(l, a, ll.right - 1, ll.bottom - 1));
    }
}

/// The cells of an `n`-cell grid that a run `lo .. hi` of face cells
/// touches, scaled down: every face cell `p` of the run falls in one of
/// them, and each of them holds a face cell of the run (the first one at or
/// after the cell's start).
proof fn lemma_cells_touched(lo: u8, hi: u8, n: int, p: int, q: int)
    requires
        lo < hi <= 16,
        n == 16 || n == 8 || n == 4 || n == 2,
    ensures
        lo <= p < hi ==> reduce_min(lo, n as u8) <= p / cell_width(n) < reduce_max(hi, n as u8),
        reduce_min(lo, n as u8) <= q < reduce_max(hi, n as u8) ==> {
            let c = if lo > q * cell_width(n) { lo as int } else { q * cell_width(n) };
            &&& lo <= c < hi
            &&& c / cell_width(n) == q
        },
{
    if n == 16 {
        assert(16u8 / 16u8 == 1u8);
    } else if n == 8 {
        assert(16u8 / 8u8 == 2u8);
    } else if n == 4 {
        assert(16u8 / 4u8 == 4u8);
    } else {
        assert(16u8 / 2u8 == 8u8);
    }
}

/// Rectangle against a grid: the rectangle scaled down to the grid touches
/// exactly the cells that hold a point of the rectangle.
proof fn lemma_pointwise_rect_grid(lr: OcclusionRect, r: OcclusionShape, a: u8, b: u8)
    requires
        rect_on_face(lr),
        lr.left < lr.right,
        lr.top < lr.bottom,
        r is S16x16 || r is S8x8 || r is S4x4 || r is S2x2,
    ensures
        rect_in_grid(spec_downsample(spec_rotate(lr, a), shape_res(r) as u8), r, b)
            == covered_pointwise(OcclusionShape::Rect(lr), a, r, b),
{
    let l = OcclusionShape::Rect(lr);
    let ll = spec_rotate(lr, a);
    let n = shape_res(r);
    let k = cell_width(n);
    let d = spec_downsample(ll, n as u8);
    assert(rect_on_face(ll));
    assert(k == 16int / n && (n == 16 || n == 8 || n == 4 || n == 2));
    assert(16u8 / (n as u8) == k);
    if rect_in_grid(d, r, b) {
        assert forall|px: int, py: int| 0 <= px < 16 && 0 <= py < 16 && #[trigger] covers_turned(l, a, px, py)
            implies covers_turned(r, b, px, py) by {
            let qx = px / k;
            let qy = py / k;
            lemma_cells_touched(ll.left, ll.right, n, px, qx);
            lemma_cells_touched(ll.top, ll.bottom, n, py, qy);
            assert(rect_contains(d, qx, qy));
            assert(grid_cell_turned(r, b, qx, qy));
        }
    }
    if covered_pointwise(l, a, r, b) {
        assert forall|qx: int, qy: int| rect_contains(d, qx, qy) implies #[trigger] grid_cell_turned(r, b, qx, qy) by {
            let px = if ll.left > qx * k { ll.left as int } else { qx * k };
            let py = if ll.top > qy * k { ll.top as int } else { qy * k };
            lemma_cells_touched(ll.left, ll.right, n, px, qx);
            lemma_cells_touched(ll.top, ll.bottom, n, py, qy);
            assert(covers_turned(l, a, px, py));
        }
    }
}

/// A grid against a rectangle: each set cell lies inside the rectangle
/// exactly when each point it covers does.
proof fn lemma_pointwise_grid_rect(l: OcclusionShape, rr: OcclusionRect, a: u8, b: u8)
    requires
        rect_on_face(rr),
        l is S16x16 || l is S8x8 || l is S4x4 || l is S2x2,
    ensures
        grid_in_rect(l, a, spec_rotate(rr, b)) == covered_pointwise(l, a, OcclusionShape::Rect(rr), b),
{
    let r = OcclusionShape::Rect(rr);
    let rl = spec_rotate(rr, b);
    let n = shape_res(l);
    let k = cell_width(n);
    assert(k * n == 16);
    if grid_in_rect(l, a, rl) {
        assert forall|px: int, py: int| 0 <= px < 16 && 0 <= py < 16 && #[trigger] covers_turned(l, a, px, py)
            implies covers_turned(r, b, px, py) by {
            let qx = px / k;
            let qy = py / k;
            assert(0 <= qx < n && 0 <= qy < n);
            assert(grid_cell_turned(l, a, qx, qy));
            assert(rect_contains_rect(rl, cell_block(qx, qy, k)));
        }
    }
    if covered_pointwise(l, a, r, b) {
        assert forall|qx: int, qy: int| 0 <= qx < n && 0 <= qy < n && #[trigger] grid_cell_turned(l, a, qx, qy)
            implies rect_contains_rect(rl, cell_block(qx, qy, k)) by {
            assert(0 <= qx * k && qx * k + k <= 16 && 0 <= qy * k && qy * k + k <= 16);
            assert((qx * k) / k == qx && (qy * k) / k == qy);
            assert((qx * k + k - 1) / k == qx && (qy * k + k - 1) / k == qy);
            assert(covers_turned(l, a, qx * k, qy * k));
            assert(covers_turned(l, a, qx * k + k - 1, qy * k + k - 1));
        }
    }
}

/// [`OcclusionShape::occluded_by`] on a rectangle or grid face (turned `a`)
/// against a non-empty face (turned `b`) holds exactly when every point of
/// the 16x16 face that the first covers is covered by the second. Shapes
/// are taken on the face, and rectangles on the left with some area.
pub proof fn law_occluded_by_pointwise(l: OcclusionShape, r: OcclusionShape, a: u8, b: u8)
    requires
        !(l is Full) && !(l is Empty),
        !(r is Empty),
        shape_on_face(l),
        shape_on_face(r),
        l is Rect ==> l->Rect_0.left < l->Rect_0.right && l->Rect_0.top < l->Rect_0.bottom,
    ensures
        spec_occluded_by(l, r, a, b) == covered_pointwise(l, a, r, b),
{
    if r is Full {
    } else {
        match l {
            OcclusionShape::Rect(lr) => match r {
                OcclusionShape::Rect(rr) => lemma_pointwise_rect_rect(lr, rr, a, b),
                _ => lemma_pointwise_rect_grid(lr, r, a, b),
            },
            _ => match r {
                OcclusionShape::Rect(rr) => lemma_pointwise_grid_rect(l, rr, a, b),
                _ => {
                    if grid_in_grid(l, a, r, b) {
                        assert forall|px: int, py: int| 0 <= px < 16 && 0 <= py < 16 && #[trigger] covers_turned(l, a, px, py)
                            implies covers_turned(r, b, px, py) by {
                            assert(grid_covers(l, a, px, py));
                        }
                    }
                    if covered_pointwise(l, a, r, b) {
                        assert forall|px: int, py: int| 0 <= px < 16 && 0 <= py < 16 && #[trigger] grid_covers(l, a, px, py)
                            implies grid_covers(r, b, px, py) by {
                            assert(covers_turned(l, a, px, py));
                        }
                    }
                },
            },
        }
    }
}

/// Some point of the 16x16 face is covered by `s`.
pub open spec fn covers_some_point(s: OcclusionShape) -> bool {
    exists|px: int, py: int| 0 <= px < 16 && 0 <= py < 16 && #[trigger] covers_point(s, px, py)
}

/// A 64-bit mask is zero exactly when none of its bits is set.
proof fn lemma_u64_zero_iff_no_bit(m: u64)
    ensures
        (m == 0) == (forall|x: u64| x < 64 ==> !#[trigger] bit64(m, x)),
{
    lemma_full_masks();
    lemma_u64_andnot_zero(m, 0);
    assert forall|x: u64| x < 64 implies !#[trigger] bit64(0u64, x) by {
        lemma_zero_bits(x);
    }
}

/// A 16-bit mask is zero exactly when none of its bits is set.
proof fn lemma_u16_zero_iff_no_bit(m: u16)
    ensures
        (m == 0) == (forall|x: u16| x < 16 ==> !#[trigger] bit16(m, x)),
{
    lemma_full_masks();
    lemma_u16_andnot_zero(m, 0);
    assert forall|x: u16| x < 16 implies !#[trigger] bit16(0u16, x) by {
        lemma_zero_bits(x as u64);
    }
}

/// A grid or full shape reports that it occludes something
/// ([`OcclusionShape::occludes`]) exactly when it covers some point of the
/// face; an empty one never does, and a rectangle always does. A 2x2 grid
/// is taken with no bit above its cells.
pub proof fn law_occludes_covers_some_point(s: OcclusionShape)
    requires
        s is S16x16 ==> s->S16x16_0.0@.len() == 16,
        s is S2x2 ==> s->S2x2_0.0 < 16,
    ensures
        s is Rect ==> spec_occludes(s),
        !(s is Rect) ==> spec_occludes(s) == covers_some_point(s),
{
    lemma_full_masks();
    match s {
        OcclusionShape::S16x16(m) => {
            if spec_occludes(s) {
                let y = choose|y: int| 0 <= y < 16 && #[trigger] m.0@[y] != 0;
                lemma_u16_zero_iff_no_bit(m.0@[y]);
                let x = choose|x: u16| x < 16 && #[trigger] bit16(m.0@[y], x);
                assert(covers_point(s, x as int, y));
            }
            if covers_some_point(s) {
                let (px, py) = choose|px: int, py: int| 0 <= px < 16 && 0 <= py < 16 && #[trigger] covers_point(s, px, py);
                lemma_u16_zero_iff_no_bit(m.0@[py]);
                assert(bit16(m.0@[py], px as u16));
                assert(m.0@[py] != 0);
            }
        },
        OcclusionShape::S8x8(m) => {
            lemma_u64_zero_iff_no_bit(m.0);
            if spec_occludes(s) {
                let i = choose|x: u64| x < 64 && #[trigger] bit64(m.0, x);
                let x = (i % 8) as int;
                let y = (i / 8) as int;
                assert((2 * x) / 2 == x && (2 * y) / 2 == y);
                assert((y * 8 + x) as u64 == i);
                assert(covers_point(s, 2 * x, 2 * y));
            }
            if covers_some_point(s) {
                let (px, py) = choose|px: int, py: int| 0 <= px < 16 && 0 <= py < 16 && #[trigger] covers_point(s, px, py);
                let i = ((py / 2) * 8 + px / 2) as u64;
                assert(i < 64 && bit64(m.0, i));
            }
        },
        OcclusionShape::S4x4(m) => {
            lemma_u16_zero_iff_no_bit(m.0);
            if spec_occludes(s) {
                let i = choose|x: u16| x < 16 && #[trigger] bit16(m.0, x);
                let x = (i % 4) as int;
                let y = (i / 4) as int;
                assert((4 * x) / 4 == x && (4 * y) / 4 == y);
                assert((y * 4 + x) as u16 == i);
                assert(covers_point(s, 4 * x, 4 * y));
            }
            if covers_some_point(s) {
                let (px, py) = choose|px: int, py: int| 0 <= px < 16 && 0 <= py < 16 && #[trigger] covers_point(s, px, py);
                let i = ((py / 4) * 4 + px / 4) as u16;
                assert(i < 16 && bit16(m.0, i));
            }
        },
        OcclusionShape::S2x2(m) => {
            assert(m.0 & (1u8 << 1u8) == m.0 & (1u8 << 1u8));
            if spec_occludes(s) {
                if bit8(m.0, 0) {
                    assert(covers_point(s, 0, 0));
                } else if bit8(m.0, 1) {
                    assert(covers_point(s, 8, 0));
                } else if bit8(m.0, 2) {
                    assert(covers_point(s, 0, 8));
                } else {
                    assert(covers_point(s, 8, 8));
                }
            }
            if covers_some_point(s) {
                let (px, py) = choose|px: int, py: int| 0 <= px < 16 && 0 <= py < 16 && #[trigger] covers_point(s, px, py);
                assert(0 <= px / 8 < 2 && 0 <= py / 8 < 2);
            }
        },
        OcclusionShape::Rect(_) => {},
        OcclusionShape::Full => {
            assert(covers_point(s, 0, 0));
        },
        OcclusionShape::Empty => {},
    }
}

} // verus!
