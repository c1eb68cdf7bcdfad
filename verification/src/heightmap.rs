//! Which blocks of a chunk are solid, column by column, and the height of
//! each column (one past its top solid block).
use vstd::prelude::*;
use vstd::bytes::{spec_u64_from_le_bytes, spec_u64_to_le_bytes, u64_from_le_bytes, u64_to_le_bytes};
use crate::bits::{bit64, lemma_bit64_update, lemma_u64_andnot_zero, lemma_zero_bits};
use crate::byteio::{spec_u16_be, spec_u16_from_be, write_u16_be, ByteReader};
use crate::coord::Coord;
use crate::error::Error;

verus! {

/// The height of the world in blocks.
pub const WORLD_HEIGHT: usize = 640;

/// `h` is one past the last `true` of `s`, or zero when there is none.
pub open spec fn is_top(s: Seq<bool>, h: int) -> bool {
    &&& 0 <= h <= s.len()
    &&& h > 0 ==> s[h - 1]
    &&& forall|i: int| h <= i < s.len() ==> !#[trigger] s[i]
}

/// The highest set bit of a non-zero mask.
fn highest_bit(m: u64) -> (r: u64)
    requires
        m != 0,
    ensures
        r < 64,
        bit64(m, r),
        forall|k: u64| r < k < 64 ==> !#[trigger] bit64(m, k),
{
    let mut b: u64 = 64;
    while b > 0
        invariant
            b <= 64,
            m != 0,
            forall|k: u64| b <= k < 64 ==> !#[trigger] bit64(m, k),
        decreases b,
    {
        if m & (1u64 << (b - 1)) != 0 {
            return b - 1;
        }
        b = b - 1;
    }
    proof {
        lemma_u64_andnot_zero(m, 0);
        assert forall|x: u64| x < 64 implies !#[trigger] bit64(m, x) by {}
        assert forall|x: u64| x < 64 && #[trigger] bit64(m, x) implies bit64(0, x) by {}
        assert(m & !0u64 == m) by (bit_vector);
    }
    assert(false);
    0
}

/// One bit per block of a column, in 64-bit masks from the bottom up.
#[derive(Clone, Copy)]
pub struct HeightmapColumn {
    masks: [u64; 10],
}

impl HeightmapColumn {
    /// The number of masks (`WORLD_HEIGHT` rounded up to 64 blocks).
    pub const SECTION_COUNT: usize = 10;

    /// The masks, from the bottom up.
    pub closed spec fn masks(&self) -> Seq<u64> {
        self.masks@
    }

    /// Block `i` of the column is set.
    pub open spec fn cell(&self, i: int) -> bool {
        bit64(self.masks()[i / 64], (i % 64) as u64)
    }

    /// The bits of the column, from the bottom up.
    pub open spec fn cells(&self) -> Seq<bool> {
        Seq::new(640, |i: int| self.cell(i))
    }

    /// An empty column.
    pub fn new() -> (r: Self)
        ensures
            r.masks() == Seq::new(10, |i: int| 0u64),
            forall|i: int| 0 <= i < 640 ==> !#[trigger] r.cells()[i],
    {
        let r = Self { masks: [0u64; 10] };
        proof {
            assert(r.masks() =~= Seq::new(10, |i: int| 0u64));
            assert forall|i: int| 0 <= i < 640 implies !#[trigger] r.cells()[i] by {
                lemma_zero_bits((i % 64) as u64);
            }
        }
        r
    }

    /// Block `index` of the column is set.
    pub fn get(&self, index: usize) -> (r: bool)
        requires
            index < 640,
        ensures
            r == self.cells()[index as int],
    {
        let sub_index = index / 64;
        let bit_index = index % 64;
        self.masks[sub_index] & (1u64 << (bit_index as u64)) != 0
    }

    /// Sets or clears block `index` and returns its old state.
    pub fn set(&mut self, index: usize, value: bool) -> (r: bool)
        requires
            index < 640,
        ensures
            r == old(self).cells()[index as int],
            final(self).cells() == old(self).cells().update(index as int, value),
    {
        let sub_index = index / 64;
        let bit_index = (index % 64) as u64;
        let mask = self.masks[sub_index];
        let previous = mask & (1u64 << bit_index) != 0;
        if previous != value {
            self.masks[sub_index] = if value {
                mask | (1u64 << bit_index)
            } else {
                mask & !(1u64 << bit_index)
            };
        }
        proof {
            assert forall|i: int| 0 <= i < 640 implies #[trigger] self.cells()[i]
                == old(self).cells().update(index as int, value)[i] by {
                let j = i / 64;
                if j == sub_index {
                    lemma_bit64_update(mask, bit_index, (i % 64) as u64);
                }
            }
            assert(self.cells() =~= old(self).cells().update(index as int, value));
        }
        previous
    }

    /// One past the highest set block, or zero for an empty column.
    pub fn height(&self) -> (r: usize)
        ensures
            is_top(self.cells(), r as int),
    {
        let mut i: usize = 10;
        while i > 0
            invariant
                i <= 10,
                forall|j: int| 64 * i <= j < 640 ==> !#[trigger] self.cells()[j],
            decreases i,
        {
            let m = self.masks[i - 1];
            if m != 0 {
                let b = highest_bit(m);
                let h = b as usize + 1 + (i - 1) * 64;
                proof {
                    assert(self.cells()[h - 1] == bit64(m, b));
                    assert forall|j: int| h <= j < 640 implies !#[trigger] self.cells()[j] by {
                        if j < 64 * i {
                            assert(j / 64 == i - 1);
                            assert(!bit64(m, (j % 64) as u64));
                        }
                    }
                }
                return h;
            }
            proof {
                assert forall|j: int| 64 * (i - 1) <= j < 640 implies !#[trigger] self.cells()[j] by {
                    if j < 64 * i {
                        assert(j / 64 == i - 1);
                        lemma_zero_bits((j % 64) as u64);
                    }
                }
            }
            i = i - 1;
        }
        0
    }

    /// Appends the masks, each as 8 little-endian bytes, and returns the
    /// number of bytes written.
    pub fn write_to(&self, writer: &mut Vec<u8>) -> (r: u64)
        ensures
            final(writer)@ == old(writer)@ + column_bytes(self.masks()),
            r == 80,
    {
        let mut i: usize = 0;
        while i < 10
            invariant
                i <= 10,
                self.masks().len() == 10,
                writer@ == old(writer)@ + column_bytes(self.masks()).take(8 * i),
            decreases 10 - i,
        {
            let bytes = u64_to_le_bytes(self.masks[i]);
            proof {
                vstd::bytes::lemma_auto_spec_u64_to_from_le_bytes();
            }
            let mut k: usize = 0;
            while k < 8
                invariant
                    k <= 8,
                    i < 10,
                    self.masks().len() == 10,
                    bytes@ == spec_u64_to_le_bytes(self.masks()[i as int]),
                    bytes@.len() == 8,
                    writer@ == old(writer)@ + column_bytes(self.masks()).take(8 * i + k),
                decreases 8 - k,
            {
                writer.push(bytes[k]);
                proof {
                    assert(column_bytes(self.masks())[8 * i + k] == bytes@[k as int]);
                    assert(column_bytes(self.masks()).take(8 * i + k + 1)
                        =~= column_bytes(self.masks()).take(8 * i + k).push(bytes@[k as int]));
                }
                k = k + 1;
            }
            i = i + 1;
        }
        proof {
            assert(column_bytes(self.masks()).take(80) =~= column_bytes(self.masks()));
        }
        80
    }

    /// Reads the masks written by [`HeightmapColumn::write_to`]; when fewer
    /// than 80 bytes remain, nothing is read or changed.
    pub fn read_from(&mut self, reader: &mut ByteReader) -> (r: Result<(), Error>)
        requires
            old(reader).wf(),
        ensures
            final(reader).wf(),
            final(reader).bytes() == old(reader).bytes(),
            old(reader).remaining().len() >= 80 ==> r is Ok
                && final(self).masks() == column_masks(old(reader).remaining().take(80))
                && final(reader).position() == old(reader).position() + 80,
            old(reader).remaining().len() < 80 ==> r == Err::<(), Error>(Error::UnexpectedEnd)
                && final(self).masks() == old(self).masks()
                && final(reader).position() == old(reader).position(),
    {
        let bytes = match reader.read_exact(80) {
            Ok(b) => b,
            Err(e) => {
                return Err(e);
            },
        };
        let mut i: usize = 0;
        while i < 10
            invariant
                i <= 10,
                bytes@.len() == 80,
                forall|j: int| 0 <= j < i ==> #[trigger] self.masks()[j] == column_masks(bytes@)[j],
                self.masks().len() == 10,
            decreases 10 - i,
        {
            let chunk = slice_8(&bytes, 8 * i);
            self.masks[i] = u64_from_le_bytes(chunk.as_slice());
            i = i + 1;
        }
        proof {
            assert(self.masks() =~= column_masks(bytes@));
        }
        Ok(())
    }
}

/// Eight bytes of `v` from `start`.
fn slice_8(v: &Vec<u8>, start: usize) -> (r: Vec<u8>)
    requires
        start + 8 <= v@.len(),
    ensures
        r@ == v@.subrange(start as int, start + 8),
{
    let mut r: Vec<u8> = Vec::new();
    let mut k: usize = 0;
    while k < 8
        invariant
            k <= 8,
            start + 8 <= v.len(),
            r@ == v@.subrange(start as int, start + k),
        decreases 8 - k,
    {
        r.push(v[start + k]);
        proof {
            assert(r@ =~= v@.subrange(start as int, start + k + 1));
        }
        k = k + 1;
    }
    r
}

/// The bytes of a column: each mask in 8 little-endian bytes, bottom first.
pub open spec fn column_bytes(masks: Seq<u64>) -> Seq<u8> {
    Seq::new(80, |i: int| spec_u64_to_le_bytes(masks[i / 8])[i % 8])
}

/// The masks that 80 bytes of a column stand for.
pub open spec fn column_masks(bytes: Seq<u8>) -> Seq<u64> {
    Seq::new(10, |j: int| spec_u64_from_le_bytes(bytes.subrange(8 * j, 8 * j + 8)))
}

/// Reading a column back gives the masks that were written.
pub proof fn law_column_roundtrip(masks: Seq<u64>)
    requires
        masks.len() == 10,
    ensures
        column_masks(column_bytes(masks)) == masks,
{
    vstd::bytes::lemma_auto_spec_u64_to_from_le_bytes();
    assert forall|j: int| 0 <= j < 10 implies #[trigger] column_masks(column_bytes(masks))[j] == masks[j] by {
        let b = column_bytes(masks).subrange(8 * j, 8 * j + 8);
        assert(b =~= spec_u64_to_le_bytes(masks[j]));
    }
    assert(column_masks(column_bytes(masks)) =~= masks);
}

/// There is one height for each column: `is_top` fixes it.
pub proof fn lemma_top_unique(s: Seq<bool>, h1: int, h2: int)
    requires
        is_top(s, h1),
        is_top(s, h2),
    ensures
        h1 == h2,
{
    if h1 < h2 {
        assert(!s[h2 - 1]);
    } else if h2 < h1 {
        assert(!s[h1 - 1]);
    }
}

/// The height of a column: one past its last set block.
pub open spec fn column_top(s: Seq<bool>) -> int {
    choose|h: int| is_top(s, h)
}

/// Every column has a height.
pub proof fn lemma_top_exists(s: Seq<bool>)
    ensures
        is_top(s, column_top(s)),
    decreases s.len(),
{
    if s.len() == 0 {
        assert(is_top(s, 0));
    } else if s.last() {
        assert(is_top(s, s.len() as int));
    } else {
        let t = s.drop_last();
        lemma_top_exists(t);
        let h = column_top(t);
        assert(is_top(t, h));
        assert forall|i: int| h <= i < s.len() implies !#[trigger] s[i] by {
            if i < t.len() {
                assert(s[i] == t[i]);
            }
        }
        if h > 0 {
            assert(s[h - 1] == t[h - 1]);
        }
        assert(is_top(s, h));
    }
}

/// The index of the column of block `(x, z)`: the low 4 bits of each.
pub open spec fn spec_col_index(x: i32, z: i32) -> int {
    ((x & 15i32) | ((z & 15i32) << 4i32)) as int
}

fn col_index(x: i32, z: i32) -> (r: usize)
    ensures
        r == spec_col_index(x, z),
        r < 256,
{
    let a = x & 0xF;
    let b = z & 0xF;
    let v = a | (b << 4);
    assert(0 <= v < 256) by (bit_vector)
        requires
            a == x & 15i32,
            b == z & 15i32,
            v == a | (b << 4i32),
    ;
    v as usize
}

/// The height a column has after block `y` changed from `previous` to
/// `value`: raised to `y + 1` when a block above the old height is set,
/// recomputed from the column when the top block is cleared, unchanged
/// otherwise.
pub open spec fn spec_new_height(h: u16, y: int, previous: bool, value: bool, column: Seq<bool>) -> u16 {
    if value == previous {
        h
    } else if value {
        if y + 1 > h {
            (y + 1) as u16
        } else {
            h
        }
    } else if y + 1 == h {
        column_top(column) as u16
    } else {
        h
    }
}

/// The heights in 512 big-endian bytes.
pub open spec fn heights_bytes(h: Seq<u16>) -> Seq<u8> {
    Seq::new(512, |i: int| spec_u16_be(h[i / 2])[i % 2])
}

/// The heights 512 big-endian bytes stand for.
pub open spec fn decode_heights(b: Seq<u8>) -> Seq<u16> {
    Seq::new(256, |c: int| spec_u16_from_be(b[2 * c], b[2 * c + 1]))
}

/// The 256 columns, 80 bytes each.
pub open spec fn columns_bytes(cols: Seq<Seq<u64>>) -> Seq<u8> {
    Seq::new(20480, |i: int| column_bytes(cols[i / 80])[i % 80])
}

/// The bytes of a heightmap: the heights, then the columns.
pub open spec fn heightmap_bytes(h: Seq<u16>, cols: Seq<Seq<u64>>) -> Seq<u8> {
    heights_bytes(h) + columns_bytes(cols)
}

/// The solid blocks of a 16x16 chunk and the height of each column.
pub struct Heightmap {
    columns: Vec<HeightmapColumn>,
    heightmap: Vec<u16>,
}

impl Heightmap {
    /// The height the columns can hold.
    pub const HEIGHT: usize = 640;
    /// The highest block index.
    pub const MAX: i32 = 639;

    /// The blocks of column `c`, from the bottom up.
    pub closed spec fn column(&self, c: int) -> Seq<bool> {
        self.columns@[c].cells()
    }

    /// The masks of each column.
    pub closed spec fn column_masks(&self) -> Seq<Seq<u64>> {
        self.columns@.map_values(|col: HeightmapColumn| col.masks())
    }

    /// The stored height of each column.
    pub closed spec fn heights(&self) -> Seq<u16> {
        self.heightmap@
    }

    /// There are 256 columns and 256 heights.
    pub closed spec fn wf(&self) -> bool {
        self.columns@.len() == 256 && self.heightmap@.len() == 256
    }

    /// Each stored height is the height of its column.
    pub open spec fn consistent(&self) -> bool {
        forall|c: int| 0 <= c < 256 ==> is_top(self.column(c), #[trigger] self.heights()[c] as int)
    }

    /// In a well-formed heightmap every column has 640 cells.
    pub proof fn lemma_column_len(&self, c: int)
        requires
            self.wf(),
            0 <= c < 256,
        ensures
            self.column(c).len() == 640,
    {
    }

    /// An empty heightmap.
    pub fn new() -> (r: Self)
        ensures
            r.wf(),
            r.consistent(),
            forall|c: int, y: int| 0 <= c < 256 && 0 <= y < 640 ==> !#[trigger] r.column(c)[y],
            forall|c: int| 0 <= c < 256 ==> #[trigger] r.heights()[c] == 0,
    {
        let mut columns: Vec<HeightmapColumn> = Vec::new();
        let mut heightmap: Vec<u16> = Vec::new();
        let mut i: usize = 0;
        while i < 256
            invariant
                i <= 256,
                columns@.len() == i,
                heightmap@.len() == i,
                forall|c: int, y: int| 0 <= c < i && 0 <= y < 640 ==> !#[trigger] columns@[c].cells()[y],
                forall|c: int| 0 <= c < i ==> #[trigger] heightmap@[c] == 0,
            decreases 256 - i,
        {
            columns.push(HeightmapColumn::new());
            heightmap.push(0);
            i = i + 1;
        }
        let r = Self { columns, heightmap };
        assert forall|c: int| 0 <= c < 256 implies is_top(r.column(c), #[trigger] r.heights()[c] as int) by {
            assert forall|y: int| 0 <= y < 640 implies !#[trigger] r.column(c)[y] by {}
        }
        r
    }

    /// Block `coord` is set (`x` and `z` wrap into `0 .. 16`).
    pub fn get(&self, coord: Coord) -> (r: bool)
        requires
            self.wf(),
            0 <= coord.y < 640,
        ensures
            r == self.column(spec_col_index(coord.x, coord.z))[coord.y as int],
    {
        let c = col_index(coord.x, coord.z);
        self.columns[c].get(coord.y as usize)
    }

    /// Sets or clears block `coord`, updates the column's height and
    /// returns the block's old state.
    pub fn set(&mut self, coord: Coord, value: bool) -> (r: bool)
        requires
            old(self).wf(),
            0 <= coord.y < 640,
        ensures
            final(self).wf(),
            ({
                let c = spec_col_index(coord.x, coord.z);
                let y = coord.y as int;
                &&& r == old(self).column(c)[y]
                &&& forall|k: int| 0 <= k < 256 ==> #[trigger] final(self).column(k) == if k == c {
                    old(self).column(k).update(y, value)
                } else {
                    old(self).column(k)
                }
                &&& final(self).heights() == old(self).heights().update(
                    c,
                    spec_new_height(old(self).heights()[c], y, r, value, final(self).column(c)),
                )
            }),
            old(self).consistent() ==> final(self).consistent(),
    {
        let c = col_index(coord.x, coord.z);
        let height = self.heightmap[c];
        let mut column = self.columns[c];
        let previous = column.set(coord.y as usize, value);
        self.columns.set(c, column);
        let ghost y = coord.y as int;
        let ghost s0 = old(self).column(c as int);
        let ghost s1 = self.column(c as int);
        if value != previous {
            if value {
                if coord.y + 1 > height as i32 {
                    self.heightmap.set(c, (coord.y + 1) as u16);
                }
            } else {
                if coord.y + 1 == height as i32 {
                    let new_height = column.height();
                    proof {
                        lemma_top_exists(s1);
                        lemma_top_unique(s1, new_height as int, column_top(s1));
                    }
                    self.heightmap.set(c, new_height as u16);
                }
            }
        }
        proof {
            assert forall|k: int| 0 <= k < 256 implies #[trigger] self.column(k) == if k == c {
                old(self).column(k).update(y, value)
            } else {
                old(self).column(k)
            } by {}
            if old(self).consistent() {
                assert(old(self).heights()[c as int] == height);
                assert(is_top(s0, height as int));
                lemma_top_exists(s1);
                assert(is_top(s1, spec_new_height(height, y, previous, value, s1) as int)) by {
                    if value != previous {
                        if value {
                            if y + 1 > height {
                                assert forall|i: int| y + 1 <= i < s1.len() implies !#[trigger] s1[i] by {
                                    assert(s1[i] == s0[i]);
                                }
                            } else {
                                assert(y + 1 < height);
                                assert(s1[height - 1] == s0[height - 1]);
                                assert forall|i: int| height <= i < s1.len() implies !#[trigger] s1[i] by {
                                    assert(s1[i] == s0[i]);
                                }
                            }
                        } else if y + 1 != height {
                            assert(y < height);
                            assert(s1[height - 1] == s0[height - 1]);
                            assert forall|i: int| height <= i < s1.len() implies !#[trigger] s1[i] by {
                                assert(s1[i] == s0[i]);
                            }
                        }
                    }
                }
                assert forall|k: int| 0 <= k < 256 implies is_top(self.column(k), #[trigger] self.heights()[k] as int) by {
                    if k != c {
                        assert(is_top(old(self).column(k), old(self).heights()[k] as int));
                    }
                }
            }
        }
        previous
    }

    /// The stored height of the column of `(x, z)` (each wrapping into
    /// `0 .. 16`).
    pub fn height(&self, x: i32, z: i32) -> (r: i32)
        requires
            self.wf(),
        ensures
            r == self.heights()[spec_col_index(x, z)],
            0 <= spec_col_index(x, z) < 256,
            self.consistent() ==> 0 <= r <= 640,
    {
        let c = col_index(x, z);
        proof {
            if self.consistent() {
                assert(is_top(self.column(c as int), self.heights()[c as int] as int));
            }
        }
        self.heightmap[c] as i32
    }

    /// Appends the heights (big-endian), then the columns, and returns the
    /// number of bytes written.
    pub fn write_to(&self, writer: &mut Vec<u8>) -> (r: u64)
        requires
            self.wf(),
        ensures
            final(writer)@ == old(writer)@ + heightmap_bytes(self.heights(), self.column_masks()),
            r == 20992,
    {
        let ghost hb = heights_bytes(self.heights());
        let ghost cb = columns_bytes(self.column_masks());
        let mut i: usize = 0;
        while i < 256
            invariant
                i <= 256,
                self.wf(),
                hb == heights_bytes(self.heights()),
                writer@ == old(writer)@ + hb.take(2 * i),
            decreases 256 - i,
        {
            let ghost before = writer@;
            write_u16_be(writer, self.heightmap[i]);
            proof {
                assert(hb.take(2 * i + 2) =~= hb.take(2 * i) + spec_u16_be(self.heights()[i as int]));
            }
            i = i + 1;
        }
        proof {
            assert(hb.take(512) =~= hb);
        }
        let mut j: usize = 0;
        while j < 256
            invariant
                j <= 256,
                self.wf(),
                hb == heights_bytes(self.heights()),
                cb == columns_bytes(self.column_masks()),
                writer@ == old(writer)@ + hb + cb.take(80 * j),
            decreases 256 - j,
        {
            let column = self.columns[j];
            column.write_to(writer);
            proof {
                assert(self.column_masks()[j as int] == column.masks());
                assert(cb.take(80 * j + 80) =~= cb.take(80 * j) + column_bytes(column.masks()));
            }
            j = j + 1;
        }
        proof {
            assert(cb.take(20480) =~= cb);
        }
        20992
    }

    /// Reads what [`Heightmap::write_to`] writes; when fewer than 20992
    /// bytes remain, nothing is read or changed.
    pub fn read_from(&mut self, reader: &mut ByteReader) -> (r: Result<(), Error>)
        requires
            old(self).wf(),
            old(reader).wf(),
        ensures
            final(self).wf(),
            final(reader).wf(),
            final(reader).bytes() == old(reader).bytes(),
            old(reader).remaining().len() >= 20992 ==> ({
                let b = old(reader).remaining();
                &&& r is Ok
                &&& final(self).heights() == decode_heights(b.take(512))
                &&& forall|c: int| 0 <= c < 256 ==> #[trigger] final(self).column_masks()[c]
                    == column_masks(b.subrange(512 + 80 * c, 592 + 80 * c))
                &&& final(reader).position() == old(reader).position() + 20992
            }),
            old(reader).remaining().len() < 20992 ==> r == Err::<(), Error>(Error::UnexpectedEnd)
                && final(self).heights() == old(self).heights()
                && final(self).column_masks() == old(self).column_masks()
                && final(reader).position() == old(reader).position(),
    {
        if reader.bytes_left() < 20992 {
            return Err(Error::UnexpectedEnd);
        }
        let ghost b = reader.remaining();
        let ghost p0 = reader.position();
        let ghost m0 = self.column_masks();
        let mut i: usize = 0;
        while i < 256
            invariant
                i <= 256,
                self.wf(),
                reader.wf(),
                reader.bytes() == old(reader).bytes(),
                b == old(reader).remaining(),
                b.len() >= 20992,
                p0 == old(reader).position(),
                0 <= p0 <= reader.bytes().len(),
                reader.position() == p0 + 2 * i,
                forall|c: int| 0 <= c < i ==> #[trigger] self.heights()[c] == decode_heights(b.take(512))[c],
                self.column_masks() == m0,
            decreases 256 - i,
        {
            let ghost rem = reader.remaining();
            proof {
                let all = reader.bytes();
                assert(rem == all.skip(p0 + 2 * i));
                assert(b == all.skip(p0));
                assert(all.len() >= p0 + 20992);
                crate::byteio::lemma_skip_at(all, p0 + 2 * i, 0);
                crate::byteio::lemma_skip_at(all, p0 + 2 * i, 1);
                crate::byteio::lemma_skip_at(all, p0, 2 * i);
                crate::byteio::lemma_skip_at(all, p0, 2 * i + 1);
            }
            let h = match reader.read_u16_be() {
                Ok(h) => h,
                Err(e) => {
                    assert(false);
                    return Err(e);
                },
            };
            let ghost hs = self.heightmap@;
            let ghost ho = self.heights();
            assert(ho == hs);
            self.heightmap.set(i, h);
            proof {
                assert(h == decode_heights(b.take(512))[i as int]);
                assert forall|c: int| 0 <= c < i + 1 implies #[trigger] self.heights()[c] == decode_heights(b.take(512))[c] by {
                    if c < i {
                        assert(self.heights()[c] == hs[c]);
                        assert(ho[c] == decode_heights(b.take(512))[c]);
                    }
                }
            }
            i = i + 1;
        }
        let ghost saved = self.heights();
        let mut j: usize = 0;
        while j < 256
            invariant
                j <= 256,
                self.wf(),
                self.heights() == saved,
                forall|c: int| 0 <= c < 256 ==> #[trigger] saved[c] == decode_heights(b.take(512))[c],
                reader.wf(),
                reader.bytes() == old(reader).bytes(),
                b == old(reader).remaining(),
                b.len() >= 20992,
                p0 == old(reader).position(),
                0 <= p0 <= reader.bytes().len(),
                reader.position() == p0 + 512 + 80 * j,
                forall|c: int| 0 <= c < 256 ==> #[trigger] self.heights()[c] == decode_heights(b.take(512))[c],
                forall|c: int| 0 <= c < j ==> #[trigger] self.column_masks()[c]
                    == column_masks(b.subrange(512 + 80 * c, 592 + 80 * c)),
            decreases 256 - j,
        {
            let ghost rem = reader.remaining();
            proof {
                let all = reader.bytes();
                assert(rem == all.skip(p0 + 512 + 80 * j));
                assert(b == all.skip(p0));
                assert(all.len() >= p0 + 20992);
                assert forall|k: int| 0 <= k < 80 implies #[trigger] rem.take(80)[k] == b.subrange(512 + 80 * j, 592 + 80 * j)[k] by {
                    crate::byteio::lemma_skip_at(all, p0 + 512 + 80 * j, k);
                    crate::byteio::lemma_skip_at(all, p0, 512 + 80 * j + k);
                }
                assert(rem.take(80) =~= b.subrange(512 + 80 * j, 592 + 80 * j));
            }
            let mut column = self.columns[j];
            match column.read_from(reader) {
                Ok(()) => {},
                Err(e) => {
                    assert(false);
                    return Err(e);
                },
            }
            let ghost cs = self.columns@;
            let ghost mo = self.column_masks();
            assert(mo == cs.map_values(|col: HeightmapColumn| col.masks()));
            self.columns.set(j, column);
            proof {
                assert(self.column_masks() =~= cs.map_values(|col: HeightmapColumn| col.masks()).update(j as int, column.masks()));
                assert forall|c: int| 0 <= c < j + 1 implies #[trigger] self.column_masks()[c]
                    == column_masks(b.subrange(512 + 80 * c, 592 + 80 * c)) by {
                    if c < j {
                        assert(self.column_masks()[c] == cs.map_values(|col: HeightmapColumn| col.masks())[c]);
                        assert(mo[c] == column_masks(b.subrange(512 + 80 * c, 592 + 80 * c)));
                    }
                }
            }
            j = j + 1;
        }
        proof {
            assert(self.heights() =~= decode_heights(b.take(512)));
        }
        Ok(())
    }
}

impl Default for Heightmap {
    /// An empty heightmap, as [`Heightmap::new`].
    fn default() -> (r: Self)
        ensures
            r.wf(),
            r.consistent(),
            forall|c: int, y: int| 0 <= c < 256 && 0 <= y < 640 ==> !#[trigger] r.column(c)[y],
            forall|c: int| 0 <= c < 256 ==> #[trigger] r.heights()[c] == 0,
    {
        Self::new()
    }
}

impl Default for HeightmapColumn {
    /// An empty column, as [`HeightmapColumn::new`].
    fn default() -> (r: Self)
        ensures
            r.masks() == Seq::new(10, |i: int| 0u64),
            forall|i: int| 0 <= i < 640 ==> !#[trigger] r.cells()[i],
    {
        Self::new()
    }
}

/// Reading a heightmap back gives the heights and the column masks that
/// were written.
pub proof fn law_heightmap_roundtrip(h: Seq<u16>, cols: Seq<Seq<u64>>)
    requires
        h.len() == 256,
        cols.len() == 256,
        forall|c: int| 0 <= c < 256 ==> (#[trigger] cols[c]).len() == 10,
    ensures
        ({
            let b = heightmap_bytes(h, cols);
            &&& b.len() == 20992
            &&& decode_heights(b.take(512)) == h
            &&& forall|c: int| 0 <= c < 256 ==> column_masks(#[trigger] b.subrange(512 + 80 * c, 592 + 80 * c)) == cols[c]
        }),
{
    let b = heightmap_bytes(h, cols);
    assert forall|c: int| 0 <= c < 256 implies #[trigger] decode_heights(b.take(512))[c] == h[c] by {
        crate::byteio::lemma_u16_be_roundtrip(h[c], 0, 0);
    }
    assert(decode_heights(b.take(512)) =~= h);
    assert forall|c: int| 0 <= c < 256 implies column_masks(#[trigger] b.subrange(512 + 80 * c, 592 + 80 * c)) == cols[c] by {
        assert(b.subrange(512 + 80 * c, 592 + 80 * c) =~= column_bytes(cols[c]));
        law_column_roundtrip(cols[c]);
    }
}

} // verus!
