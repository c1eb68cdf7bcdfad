//! The six face shapes of a block and the test of one block face against
//! its neighbour's facing face, with bitwise fast paths for the common
//! grid and rectangle combinations.
use vstd::prelude::*;
use crate::bits::{
    bit16, bit64, bit8, lemma_byte_of_u64, lemma_expand_byte, lemma_range_mask, lemma_u16_andnot_zero,
    lemma_u64_andnot_zero, spec_expand_byte,
};
use crate::direction::{spec_invert, Direction};
use crate::occlusion_shape::{
    cell8, grid_covers, grid_in_grid, grid_in_rect, rect_contains, rect_in_grid, rect_on_face,
    shape_on_face, spec_downsample, spec_occluded_by, spec_rotate, cell_block, grid_cell_turned,
    rect_contains_rect, shape_res, lemma_downsample_on_grid, covers_face, covered_pointwise,
    law_full_face_occluded_covers_face, law_fully_occluded_covers_face, law_occluded_by_pointwise, OcclusionRect, OcclusionShape, OcclusionShape16x16, OcclusionShape8x8,
};

verus! {

/// Expands an 8-bit row to a 16-bit row by doubling each bit: bit `i` of the
/// input becomes bits `2i` and `2i + 1` of the output.
pub fn expand_byte_to_u16(b: u8) -> (r: u16)
    ensures
        r == spec_expand_byte(b),
        forall|x: u16| x < 16 ==> #[trigger] bit16(r, x) == bit8(b, (x / 2) as u8),
{
    let mut x = b as u16;
    x = (x | (x << 4)) & 0x0F0F;
    x = (x | (x << 2)) & 0x3333;
    x = (x | (x << 1)) & 0x5555;
    let r = x | (x << 1);
    proof {
        assert forall|x: u16| x < 16 implies #[trigger] bit16(r, x) == bit8(b, (x / 2) as u8) by {
            lemma_expand_byte(b, x);
        }
    }
    r
}

/// The cells of row `y` of the rectangle as a 16-bit row mask: bits
/// `left .. right` when `top <= y < bottom`, and no bits otherwise.
pub fn rect_row_mask(rect: OcclusionRect, y: u8) -> (r: u16)
    requires
        rect.top <= y < rect.bottom ==> rect.left < 32 && rect.right < 32,
    ensures
        forall|x: u16| x < 16 ==> #[trigger] bit16(r, x) == (rect.top <= y < rect.bottom && rect.left <= x < rect.right),
{
    if y < rect.top || y >= rect.bottom || rect.left >= rect.right {
        proof {
            assert forall|x: u16| x < 16 implies !#[trigger] bit16(0u16, x) by {
                crate::bits::lemma_zero_bits(x as u64);
            }
        }
        return 0;
    }
    let lo = rect.left as u32;
    let hi = rect.right as u32;
    proof {
        lemma_range_mask(lo, hi, 0);
    }
    let r = ((1u32 << hi) - (1u32 << lo)) as u16;
    proof {
        assert forall|x: u16| x < 16 implies #[trigger] bit16(r, x) == (lo <= x && x < hi) by {
            lemma_range_mask(lo, hi, x);
        }
    }
    r
}

/// The occlusion shapes of the six faces of a block.
#[derive(Debug, Clone, Copy, PartialEq, Eq, Hash)]
pub struct Occluder {
    pub neg_x: OcclusionShape,
    pub neg_y: OcclusionShape,
    pub neg_z: OcclusionShape,
    pub pos_x: OcclusionShape,
    pub pos_y: OcclusionShape,
    pub pos_z: OcclusionShape,
}

/// The shape of face `d`.
pub open spec fn face_shape(o: Occluder, d: Direction) -> OcclusionShape {
    match d {
        Direction::NegX => o.neg_x,
        Direction::NegY => o.neg_y,
        Direction::NegZ => o.neg_z,
        Direction::PosX => o.pos_x,
        Direction::PosY => o.pos_y,
        Direction::PosZ => o.pos_z,
    }
}

/// Face shape `l` of a block is hidden by face shape `r` of the neighbour
/// it faces (both in their default orientation).
pub open spec fn spec_face_occluded_by(l: OcclusionShape, r: OcclusionShape) -> bool {
    if r is Empty {
        false
    } else if r is Full {
        !(l is Empty)
    } else {
        spec_occluded_by(l, r, 0, 0)
    }
}

/// Row-wise fast path for a 16x16 grid against a 16x16 grid.
proof fn lemma_fast_16_16(s: OcclusionShape16x16, o: OcclusionShape16x16)
    ensures
        (forall|y: int| 0 <= y < 16 ==> #[trigger] (s.0@[y] & !o.0@[y]) == 0)
            == grid_in_grid(OcclusionShape::S16x16(s), 0, OcclusionShape::S16x16(o), 0),
{
    let l = OcclusionShape::S16x16(s);
    let r = OcclusionShape::S16x16(o);
    assert forall|px: int, py: int| 0 <= px < 16 && 0 <= py < 16 implies
        #[trigger] grid_covers(l, 0, px, py) == bit16(s.0@[py], px as u16)
        && grid_covers(r, 0, px, py) == bit16(o.0@[py], px as u16) by {
    }
    assert forall|y: int| 0 <= y < 16 implies (#[trigger] (s.0@[y] & !o.0@[y]) == 0) == (forall|x: u16| x < 16 ==> #[trigger] bit16(s.0@[y], x) ==> bit16(o.0@[y], x)) by {
        lemma_u16_andnot_zero(s.0@[y], o.0@[y]);
    }
    if forall|y: int| 0 <= y < 16 ==> #[trigger] (s.0@[y] & !o.0@[y]) == 0 {
        assert forall|px: int, py: int| 0 <= px < 16 && 0 <= py < 16 && #[trigger] grid_covers(l, 0, px, py) implies grid_covers(r, 0, px, py) by {
            assert((s.0@[py] & !o.0@[py]) == 0);
            assert(bit16(s.0@[py], px as u16));
        }
    }
    if grid_in_grid(l, 0, r, 0) {
        assert forall|y: int| 0 <= y < 16 implies #[trigger] (s.0@[y] & !o.0@[y]) == 0 by {
            assert forall|x: u16| x < 16 && #[trigger] bit16(s.0@[y], x) implies bit16(o.0@[y], x) by {
                assert(grid_covers(l, 0, x as int, y));
            }
        }
    }
}

/// Row-wise fast path for a 16x16 grid against an 8x8 grid expanded to 16
/// bits per row.
proof fn lemma_fast_16_8(s: OcclusionShape16x16, o: OcclusionShape8x8)
    ensures
        (forall|y: int| 0 <= y < 16 ==> #[trigger] (s.0@[y] & !spec_expand_byte(((o.0 >> ((y / 2) * 8) as u64) & 0xFFu64) as u8)) == 0)
            == grid_in_grid(OcclusionShape::S16x16(s), 0, OcclusionShape::S8x8(o), 0),
{
    let l = OcclusionShape::S16x16(s);
    let r = OcclusionShape::S8x8(o);
    assert forall|px: int, py: int| 0 <= px < 16 && 0 <= py < 16 implies
        #[trigger] grid_covers(l, 0, px, py) == bit16(s.0@[py], px as u16)
        && grid_covers(r, 0, px, py) == bit16(spec_expand_byte(((o.0 >> ((py / 2) * 8) as u64) & 0xFFu64) as u8), px as u16) by {
        lemma_expand_byte(((o.0 >> ((py / 2) * 8) as u64) & 0xFFu64) as u8, px as u16);
        lemma_byte_of_u64(o.0, (py / 2) as u64, (px / 2) as u64);
        assert(cell8(o.0, px / 2, py / 2) == bit64(o.0, ((py / 2) * 8 + px / 2) as u64));
    }
    assert forall|y: int| 0 <= y < 16 implies (#[trigger] (s.0@[y] & !spec_expand_byte(((o.0 >> ((y / 2) * 8) as u64) & 0xFFu64) as u8)) == 0) == (forall|x: u16| x < 16 ==> #[trigger] bit16(s.0@[y], x) ==> bit16(spec_expand_byte(((o.0 >> ((y / 2) * 8) as u64) & 0xFFu64) as u8), x)) by {
        lemma_u16_andnot_zero(s.0@[y], spec_expand_byte(((o.0 >> ((y / 2) * 8) as u64) & 0xFFu64) as u8));
    }
    if forall|y: int| 0 <= y < 16 ==> #[trigger] (s.0@[y] & !spec_expand_byte(((o.0 >> ((y / 2) * 8) as u64) & 0xFFu64) as u8)) == 0 {
        assert forall|px: int, py: int| 0 <= px < 16 && 0 <= py < 16 && #[trigger] grid_covers(l, 0, px, py) implies grid_covers(r, 0, px, py) by {
            assert((s.0@[py] & !spec_expand_byte(((o.0 >> ((py / 2) * 8) as u64) & 0xFFu64) as u8)) == 0);
            assert(bit16(s.0@[py], px as u16));
        }
    }
    if grid_in_grid(l, 0, r, 0) {
        assert forall|y: int| 0 <= y < 16 implies #[trigger] (s.0@[y] & !spec_expand_byte(((o.0 >> ((y / 2) * 8) as u64) & 0xFFu64) as u8)) == 0 by {
            assert forall|x: u16| x < 16 && #[trigger] bit16(s.0@[y], x) implies bit16(spec_expand_byte(((o.0 >> ((y / 2) * 8) as u64) & 0xFFu64) as u8), x) by {
                assert(grid_covers(l, 0, x as int, y));
            }
        }
    }
}

/// Row-wise fast path for an 8x8 grid expanded to 16 bits per row against a
/// 16x16 grid.
proof fn lemma_fast_8_16(s: OcclusionShape8x8, o: OcclusionShape16x16)
    ensures
        (forall|y: int| 0 <= y < 16 ==> #[trigger] (spec_expand_byte(((s.0 >> ((y / 2) * 8) as u64) & 0xFFu64) as u8) & !o.0@[y]) == 0)
            == grid_in_grid(OcclusionShape::S8x8(s), 0, OcclusionShape::S16x16(o), 0),
{
    let l = OcclusionShape::S8x8(s);
    let r = OcclusionShape::S16x16(o);
    assert forall|px: int, py: int| 0 <= px < 16 && 0 <= py < 16 implies
        #[trigger] grid_covers(l, 0, px, py) == bit16(spec_expand_byte(((s.0 >> ((py / 2) * 8) as u64) & 0xFFu64) as u8), px as u16)
        && grid_covers(r, 0, px, py) == bit16(o.0@[py], px as u16) by {
        lemma_expand_byte(((s.0 >> ((py / 2) * 8) as u64) & 0xFFu64) as u8, px as u16);
        lemma_byte_of_u64(s.0, (py / 2) as u64, (px / 2) as u64);
        assert(cell8(s.0, px / 2, py / 2) == bit64(s.0, ((py / 2) * 8 + px / 2) as u64));
    }
    assert forall|y: int| 0 <= y < 16 implies (#[trigger] (spec_expand_byte(((s.0 >> ((y / 2) * 8) as u64) & 0xFFu64) as u8) & !o.0@[y]) == 0) == (forall|x: u16| x < 16 ==> #[trigger] bit16(spec_expand_byte(((s.0 >> ((y / 2) * 8) as u64) & 0xFFu64) as u8), x) ==> bit16(o.0@[y], x)) by {
        lemma_u16_andnot_zero(spec_expand_byte(((s.0 >> ((y / 2) * 8) as u64) & 0xFFu64) as u8), o.0@[y]);
    }
    if forall|y: int| 0 <= y < 16 ==> #[trigger] (spec_expand_byte(((s.0 >> ((y / 2) * 8) as u64) & 0xFFu64) as u8) & !o.0@[y]) == 0 {
        assert forall|px: int, py: int| 0 <= px < 16 && 0 <= py < 16 && #[trigger] grid_covers(l, 0, px, py) implies grid_covers(r, 0, px, py) by {
            assert((spec_expand_byte(((s.0 >> ((py / 2) * 8) as u64) & 0xFFu64) as u8) & !o.0@[py]) == 0);
            assert(bit16(spec_expand_byte(((s.0 >> ((py / 2) * 8) as u64) & 0xFFu64) as u8), px as u16));
        }
    }
    if grid_in_grid(l, 0, r, 0) {
        assert forall|y: int| 0 <= y < 16 implies #[trigger] (spec_expand_byte(((s.0 >> ((y / 2) * 8) as u64) & 0xFFu64) as u8) & !o.0@[y]) == 0 by {
            assert forall|x: u16| x < 16 && #[trigger] bit16(spec_expand_byte(((s.0 >> ((y / 2) * 8) as u64) & 0xFFu64) as u8), x) implies bit16(o.0@[y], x) by {
                assert(grid_covers(l, 0, x as int, y));
            }
        }
    }
}

/// Whole-mask fast path for an 8x8 grid against an 8x8 grid.
proof fn lemma_fast_8_8(s: OcclusionShape8x8, o: OcclusionShape8x8)
    ensures
        ((s.0 & !o.0) == 0) == grid_in_grid(OcclusionShape::S8x8(s), 0, OcclusionShape::S8x8(o), 0),
{
    let l = OcclusionShape::S8x8(s);
    let r = OcclusionShape::S8x8(o);
    lemma_u64_andnot_zero(s.0, o.0);
    assert forall|px: int, py: int| 0 <= px < 16 && 0 <= py < 16 implies
        #[trigger] grid_covers(l, 0, px, py) == bit64(s.0, ((py / 2) * 8 + px / 2) as u64)
        && grid_covers(r, 0, px, py) == bit64(o.0, ((py / 2) * 8 + px / 2) as u64) by {
    }
    if (s.0 & !o.0) == 0 {
        assert forall|px: int, py: int| 0 <= px < 16 && 0 <= py < 16 && #[trigger] grid_covers(l, 0, px, py) implies grid_covers(r, 0, px, py) by {
            assert(bit64(s.0, ((py / 2) * 8 + px / 2) as u64));
        }
    }
    if grid_in_grid(l, 0, r, 0) {
        assert forall|i: u64| i < 64 && #[trigger] bit64(s.0, i) implies bit64(o.0, i) by {
            let px = ((i % 8) * 2) as int;
            let py = ((i / 8) * 2) as int;
            assert(((py / 2) * 8 + px / 2) as u64 == i);
            assert(grid_covers(l, 0, px, py));
        }
    }
}

/// A rectangle against a 16x16 grid, checked row by row with row masks.
fn rect_in_16(rect: OcclusionRect, o: &OcclusionShape16x16) -> (res: bool)
    requires
        rect_on_face(rect),
    ensures
        res == (forall|x: int, y: int| 0 <= x < 16 && 0 <= y < 16 && rect_contains(rect, x, y) ==> #[trigger] o.cell(x, y)),
{
    let mut y: u8 = 0;
    while y < 16
        invariant
            y <= 16,
            rect_on_face(rect),
            forall|x: int, yy: int| 0 <= x < 16 && 0 <= yy < y && rect_contains(rect, x, yy) ==> #[trigger] o.cell(x, yy),
        decreases 16 - y,
    {
        let m = rect_row_mask(rect, y);
        let row = o.0[y as usize];
        proof {
            lemma_u16_andnot_zero(m, row);
        }
        if m & !row != 0 {
            proof {
                let x = choose|x: u16| x < 16 && #[trigger] bit16(m, x) && !bit16(row, x);
                assert(rect_contains(rect, x as int, y as int));
                assert(!o.cell(x as int, y as int));
            }
            return false;
        }
        proof {
            assert forall|x: int| 0 <= x < 16 && rect_contains(rect, x, y as int) implies #[trigger] o.cell(x, y as int) by {
                assert(bit16(m, x as u16));
            }
        }
        y = y + 1;
    }
    true
}

/// A 16x16 grid against a rectangle, checked row by row with row masks.
fn grid16_in_rect(s: &OcclusionShape16x16, rect: OcclusionRect) -> (res: bool)
    requires
        rect_on_face(rect),
    ensures
        res == (forall|x: int, y: int| 0 <= x < 16 && 0 <= y < 16 && #[trigger] s.cell(x, y) ==> rect_contains(rect, x, y)),
{
    let mut y: u8 = 0;
    while y < 16
        invariant
            y <= 16,
            rect_on_face(rect),
            forall|x: int, yy: int| 0 <= x < 16 && 0 <= yy < y && #[trigger] s.cell(x, yy) ==> rect_contains(rect, x, yy),
        decreases 16 - y,
    {
        let m = rect_row_mask(rect, y);
        let row = s.0[y as usize];
        proof {
            lemma_u16_andnot_zero(row, m);
        }
        if row & !m != 0 {
            proof {
                let x = choose|x: u16| x < 16 && #[trigger] bit16(row, x) && !bit16(m, x);
                assert(s.cell(x as int, y as int));
                assert(!rect_contains(rect, x as int, y as int));
            }
            return false;
        }
        proof {
            assert forall|x: int| 0 <= x < 16 && #[trigger] s.cell(x, y as int) implies rect_contains(rect, x, y as int) by {
                assert(bit16(row, x as u16));
                assert(bit16(m, x as u16));
            }
        }
        y = y + 1;
    }
    true
}

/// The occluder with `shape` on face `d` and the faces of `o` elsewhere.
pub open spec fn with_face(o: Occluder, d: Direction, shape: OcclusionShape) -> Occluder {
    match d {
        Direction::NegX => Occluder { neg_x: shape, ..o },
        Direction::NegY => Occluder { neg_y: shape, ..o },
        Direction::NegZ => Occluder { neg_z: shape, ..o },
        Direction::PosX => Occluder { pos_x: shape, ..o },
        Direction::PosY => Occluder { pos_y: shape, ..o },
        Direction::PosZ => Occluder { pos_z: shape, ..o },
    }
}

/// Row-by-row check of a 16x16 grid against a 16x16 grid.
fn fast_16_16(s: &OcclusionShape16x16, o: &OcclusionShape16x16) -> (res: bool)
    ensures
        res == grid_in_grid(OcclusionShape::S16x16(*s), 0, OcclusionShape::S16x16(*o), 0),
{
    let mut y: usize = 0;
    while y < 16
        invariant
            y <= 16,
            forall|yy: int| 0 <= yy < y ==> #[trigger] (s.0@[yy] & !o.0@[yy]) == 0,
        decreases 16 - y,
    {
        if (s.0[y] & !o.0[y]) != 0 {
            assert((s.0@[y as int] & !o.0@[y as int]) != 0);
            proof {
                lemma_fast_16_16(*s, *o);
            }
            return false;
        }
        y = y + 1;
    }
    proof {
        lemma_fast_16_16(*s, *o);
    }
    true
}

/// Row-by-row check of a 16x16 grid against an 8x8 grid.
fn fast_16_8(s: &OcclusionShape16x16, o: &OcclusionShape8x8) -> (res: bool)
    ensures
        res == grid_in_grid(OcclusionShape::S16x16(*s), 0, OcclusionShape::S8x8(*o), 0),
{
    let mut y: usize = 0;
    while y < 16
        invariant
            y <= 16,
            forall|yy: int| 0 <= yy < y ==> #[trigger] (s.0@[yy] & !spec_expand_byte(((o.0 >> ((yy / 2) * 8) as u64) & 0xFFu64) as u8)) == 0,
        decreases 16 - y,
    {
        let byte = ((o.0 >> ((y / 2) * 8) as u64) & 0xFF) as u8;
        if (s.0[y] & !expand_byte_to_u16(byte)) != 0 {
            assert((s.0@[y as int] & !spec_expand_byte(((o.0 >> ((y / 2) * 8) as u64) & 0xFFu64) as u8)) != 0);
            proof {
                lemma_fast_16_8(*s, *o);
            }
            return false;
        }
        y = y + 1;
    }
    proof {
        lemma_fast_16_8(*s, *o);
    }
    true
}

/// Row-by-row check of an 8x8 grid against a 16x16 grid.
fn fast_8_16(s: &OcclusionShape8x8, o: &OcclusionShape16x16) -> (res: bool)
    ensures
        res == grid_in_grid(OcclusionShape::S8x8(*s), 0, OcclusionShape::S16x16(*o), 0),
{
    let mut y: usize = 0;
    while y < 16
        invariant
            y <= 16,
            forall|yy: int| 0 <= yy < y ==> #[trigger] (spec_expand_byte(((s.0 >> ((yy / 2) * 8) as u64) & 0xFFu64) as u8) & !o.0@[yy]) == 0,
        decreases 16 - y,
    {
        let byte = ((s.0 >> ((y / 2) * 8) as u64) & 0xFF) as u8;
        if (expand_byte_to_u16(byte) & !o.0[y]) != 0 {
            assert((spec_expand_byte(((s.0 >> ((y / 2) * 8) as u64) & 0xFFu64) as u8) & !o.0@[y as int]) != 0);
            proof {
                lemma_fast_8_16(*s, *o);
            }
            return false;
        }
        y = y + 1;
    }
    proof {
        lemma_fast_8_16(*s, *o);
    }
    true
}

impl Occluder {
    pub fn new(
        neg_x: OcclusionShape,
        neg_y: OcclusionShape,
        neg_z: OcclusionShape,
        pos_x: OcclusionShape,
        pos_y: OcclusionShape,
        pos_z: OcclusionShape,
    ) -> (r: Self)
        ensures
            r == (Occluder { neg_x, neg_y, neg_z, pos_x, pos_y, pos_z }),
    {
        Self { neg_x, neg_y, neg_z, pos_x, pos_y, pos_z }
    }

    /// The shape of one face.
    pub fn face(&self, face: Direction) -> (r: &OcclusionShape)
        ensures
            *r == face_shape(*self, face),
    {
        match face {
            Direction::NegX => &self.neg_x,
            Direction::NegY => &self.neg_y,
            Direction::NegZ => &self.neg_z,
            Direction::PosX => &self.pos_x,
            Direction::PosY => &self.pos_y,
            Direction::PosZ => &self.pos_z,
        }
    }

    /// The shape of one face, to change in place.
    pub fn face_mut(&mut self, face: Direction) -> (r: &mut OcclusionShape)
        ensures
            *r == face_shape(*old(self), face),
            *final(self) == with_face(*old(self), face, *final(r)),
    {
        match face {
            Direction::NegX => &mut self.neg_x,
            Direction::NegY => &mut self.neg_y,
            Direction::NegZ => &mut self.neg_z,
            Direction::PosX => &mut self.pos_x,
            Direction::PosY => &mut self.pos_y,
            Direction::PosZ => &mut self.pos_z,
        }
    }

    /// The faces with their shapes, in NegX, NegY, NegZ, PosX, PosY, PosZ
    /// order.
    pub fn iter(&self) -> (r: Vec<(Direction, &OcclusionShape)>)
        ensures
            r@.len() == 6,
            r@[0] == (Direction::NegX, &self.neg_x),
            r@[1] == (Direction::NegY, &self.neg_y),
            r@[2] == (Direction::NegZ, &self.neg_z),
            r@[3] == (Direction::PosX, &self.pos_x),
            r@[4] == (Direction::PosY, &self.pos_y),
            r@[5] == (Direction::PosZ, &self.pos_z),
    {
        vec![
            (Direction::NegX, &self.neg_x),
            (Direction::NegY, &self.neg_y),
            (Direction::NegZ, &self.neg_z),
            (Direction::PosX, &self.pos_x),
            (Direction::PosY, &self.pos_y),
            (Direction::PosZ, &self.pos_z),
        ]
    }

    /// Whether face `face` of this block is hidden by the facing face of
    /// the neighbouring block `other`, both in their default orientation.
    pub fn occluded_by(&self, face: Direction, other: &Self) -> (r: bool)
        requires
            !(face_shape(*other, spec_invert(face)) is Empty) && !(face_shape(*other, spec_invert(face)) is Full)
                ==> shape_on_face(face_shape(*self, face)) && shape_on_face(face_shape(*other, spec_invert(face))),
        ensures
            r == spec_face_occluded_by(face_shape(*self, face), face_shape(*other, spec_invert(face))),
    {
        let other_face = face.invert();
        let l_occl = self.face(face);
        let r_occl = other.face(other_face);
        if r_occl.is_empty() {
            return false;
        }
        if r_occl.is_full() {
            return !l_occl.is_empty();
        }
        match (l_occl, r_occl) {
            (OcclusionShape::S16x16(shape), OcclusionShape::S16x16(other)) => fast_16_16(shape, other),
            (OcclusionShape::S16x16(shape), OcclusionShape::S8x8(other)) => fast_16_8(shape, other),
            (OcclusionShape::S8x8(shape), OcclusionShape::S16x16(other)) => fast_8_16(shape, other),
            (OcclusionShape::S8x8(shape), OcclusionShape::S8x8(other)) => {
                proof {
                    lemma_fast_8_8(*shape, *other);
                }
                (shape.0 & !other.0) == 0
            },
            (OcclusionShape::Rect(shape), OcclusionShape::S16x16(other)) => {
                let res = rect_in_16(*shape, other);
                proof {
                    assert(spec_downsample(spec_rotate(*shape, 0), 16) == *shape);
                    assert forall|x: int, y: int| rect_contains(*shape, x, y) implies
                        (#[trigger] grid_cell_turned(*r_occl, 0, x, y) == other.cell(x, y) && 0 <= x < 16 && 0 <= y < 16) by {
                    }
                    if res {
                        assert forall|x: int, y: int| rect_contains(*shape, x, y) implies #[trigger] grid_cell_turned(*r_occl, 0, x, y) by {
                            assert(other.cell(x, y));
                        }
                    } else {
                        let (x, y) = choose|x: int, y: int| 0 <= x < 16 && 0 <= y < 16 && rect_contains(*shape, x, y) && !#[trigger] other.cell(x, y);
                        assert(!grid_cell_turned(*r_occl, 0, x, y));
                    }
                }
                res
            },
            (OcclusionShape::S16x16(shape), OcclusionShape::Rect(other)) => {
                let res = grid16_in_rect(shape, *other);
                proof {
                    assert(spec_rotate(*other, 0) == *other);
                    assert forall|x: int, y: int| 0 <= x < 16 && 0 <= y < 16 implies
                        (#[trigger] grid_cell_turned(*l_occl, 0, x, y) == shape.cell(x, y)
                        && rect_contains_rect(*other, cell_block(x, y, 1)) == rect_contains(*other, x, y)) by {
                    }
                    if res {
                        assert forall|x: int, y: int| 0 <= x < 16 && 0 <= y < 16 && #[trigger] grid_cell_turned(*l_occl, 0, x, y) implies rect_contains_rect(*other, cell_block(x, y, 1)) by {
                            assert(shape.cell(x, y));
                        }
                    } else {
                        let (x, y) = choose|x: int, y: int| 0 <= x < 16 && 0 <= y < 16 && #[trigger] shape.cell(x, y) && !rect_contains(*other, x, y);
                        assert(grid_cell_turned(*l_occl, 0, x, y));
                    }
                }
                res
            },
            _ => l_occl.occluded_by(r_occl, 0, 0),
        }
    }
}

/// A face of a block is hidden by its neighbour's facing face exactly when
/// the face shape is occluded by the facing shape with neither turned,
/// except that a full facing face hides any face that is not empty.
pub proof fn law_face_occlusion_is_shape_occlusion(o: Occluder, face: Direction, other: Occluder)
    ensures
        !(face_shape(other, spec_invert(face)) is Full) ==> spec_face_occluded_by(face_shape(o, face), face_shape(other, spec_invert(face)))
            == spec_occluded_by(face_shape(o, face), face_shape(other, spec_invert(face)), 0, 0),
        face_shape(other, spec_invert(face)) is Full ==> spec_face_occluded_by(face_shape(o, face), face_shape(other, spec_invert(face)))
            == !(face_shape(o, face) is Empty),
{
}

/// What [`Occluder::occluded_by`] decides for two facing faces `l` and `r`,
/// in terms of the points of the 16x16 face: nothing is occluded by an
/// empty face; a full face occludes every face but an empty one; a full
/// face is occluded exactly when `r` covers every point; an empty face
/// exactly when `r` covers every point (a 2x2 grid taken with no bit above
/// its cells); and a rectangle (with some area) or a grid exactly when
/// every point it covers is covered by `r`. Shapes are taken on the face.
pub proof fn law_face_occluded_pointwise(l: OcclusionShape, r: OcclusionShape)
    requires
        shape_on_face(l),
        shape_on_face(r),
    ensures
        r is Empty ==> !spec_face_occluded_by(l, r),
        r is Full ==> spec_face_occluded_by(l, r) == !(l is Empty),
        l is Full && !(r is Empty) ==> spec_face_occluded_by(l, r) == covers_face(r),
        l is Empty && !(r is Empty) && !(r is Full) && (r is S2x2 ==> r->S2x2_0.0 < 16)
            ==> spec_face_occluded_by(l, r) == covers_face(r),
        !(l is Full) && !(l is Empty) && !(r is Empty) && !(r is Full)
            && (l is Rect ==> l->Rect_0.left < l->Rect_0.right && l->Rect_0.top < l->Rect_0.bottom)
            ==> spec_face_occluded_by(l, r) == covered_pointwise(l, 0, r, 0),
{
    if l is Full && !(r is Empty) {
        law_full_face_occluded_covers_face(r, 0, 0);
        if r is Full {
            assert(covers_face(r));
        }
    }
    if l is Empty && !(r is Empty) && !(r is Full) && (r is S2x2 ==> r->S2x2_0.0 < 16) {
        law_fully_occluded_covers_face(r, 0, 0);
    }
    if !(l is Full) && !(l is Empty) && !(r is Empty) && !(r is Full)
        && (l is Rect ==> l->Rect_0.left < l->Rect_0.right && l->Rect_0.top < l->Rect_0.bottom) {
        law_occluded_by_pointwise(l, r, 0, 0);
    }
}

/// A face whose shape is a rectangle on the face, tested against an 8x8,
/// 4x4 or 2x2 grid on the opposite face: [`Occluder::occluded_by`] accepts
/// the pair (so it returns, whatever the orientation of the rectangle), and
/// it scales the rectangle down to the grid before looking cells up, so
/// every cell it looks at lies on that grid.
pub proof fn law_rect_against_coarse_grid(o: Occluder, face: Direction, other: Occluder)
    requires
        face_shape(o, face) is Rect,
        rect_on_face(face_shape(o, face)->Rect_0),
        face_shape(other, spec_invert(face)) is S8x8 || face_shape(other, spec_invert(face)) is S4x4
            || face_shape(other, spec_invert(face)) is S2x2,
    ensures
        shape_on_face(face_shape(o, face)),
        shape_on_face(face_shape(other, spec_invert(face))),
        ({
            let r = face_shape(other, spec_invert(face));
            let n = shape_res(r) as u8;
            let d = spec_downsample(face_shape(o, face)->Rect_0, n);
            &&& d.right <= n && d.bottom <= n
            &&& spec_face_occluded_by(face_shape(o, face), r) == rect_in_grid(d, r, 0)
        }),
{
    let r = face_shape(other, spec_invert(face));
    let lr = face_shape(o, face)->Rect_0;
    lemma_downsample_on_grid(lr, shape_res(r) as u8);
    assert(spec_rotate(lr, 0) == lr);
}

impl core::ops::Index<Direction> for Occluder {
    type Output = OcclusionShape;

    fn index(&self, index: Direction) -> (r: &OcclusionShape)
        ensures
            *r == face_shape(*self, index),
    {
        self.face(index)
    }
}

impl vstd::std_specs::core::IndexSpecImpl<Direction> for Occluder {
    open spec fn index_req(&self, index: &Direction) -> bool {
        true
    }
}

impl core::ops::IndexMut<Direction> for Occluder {
    fn index_mut(&mut self, index: Direction) -> (r: &mut OcclusionShape)
        ensures
            *r == face_shape(*old(self), index),
            *final(self) == with_face(*old(self), index, *final(r)),
    {
        self.face_mut(index)
    }
}

} // verus!
