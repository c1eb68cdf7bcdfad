//! Sizes and offsets of the data of a chunk in a region file, in blocks of
//! 4096 bytes.
use vstd::prelude::*;
use vstd::arithmetic::power2::{pow2, lemma2_to64, lemma_pow2_pos, lemma_pow2_adds, lemma_pow2_unfold};
use vstd::bits::{lemma_u64_shl_is_mul, lemma_u64_pow2_no_overflow};

verus! {

/// `block_count * 2^exponent + (2^exponent - 1) * (2^bit_size - 1)`, plus
/// `2^exponent` when the exponent is not zero: block counts in a notation
/// whose steps grow with the exponent.
pub open spec fn bsn(block_count: int, exponent: nat, bit_size: nat) -> int {
    block_count * pow2(exponent) + (pow2(exponent) - 1) * (pow2(bit_size) - 1) + if exponent > 0 {
        pow2(exponent) as int
    } else {
        0
    }
}

/// The block count written in block-size notation.
pub fn block_size_notation(block_count: u64, exponent: u32, bit_size: u32) -> (r: u64)
    requires
        exponent < 64,
        bit_size < 64,
        bsn(block_count as int, exponent as nat, bit_size as nat) <= u64::MAX,
    ensures
        r == bsn(block_count as int, exponent as nat, bit_size as nat),
{
    let pb: u64 = 1u64 << (bit_size as u64);
    let pe: u64 = 1u64 << (exponent as u64);
    proof {
        lemma_u64_pow2_no_overflow(bit_size as nat);
        lemma_u64_pow2_no_overflow(exponent as nat);
        lemma_u64_shl_is_mul(1, bit_size as u64);
        lemma_u64_shl_is_mul(1, exponent as u64);
        lemma_pow2_pos(bit_size as nat);
        lemma_pow2_pos(exponent as nat);
    }
    let max_block_size = pb - 1;
    let ghost total = bsn(block_count as int, exponent as nat, bit_size as nat);
    assert(0 <= (pe - 1) * max_block_size) by (nonlinear_arith)
        requires
            pe >= 1,
            max_block_size >= 0,
    ;
    assert(0 <= block_count * pe) by (nonlinear_arith)
        requires
            pe >= 1,
            block_count >= 0,
    ;
    let spacer1 = (pe - 1) * max_block_size;
    let spacer2 = if exponent > 0 { pe } else { 0 };
    block_count * pe + spacer1 + spacer2
}

/// A block count in 8 bits: a 5-bit count and a 3-bit exponent.
#[derive(Debug, Default, Clone, Copy, PartialEq, Eq, PartialOrd, Ord, Hash)]
pub struct BlockSize(pub u8);

/// The number of blocks the size stands for.
pub open spec fn spec_block_count(size: BlockSize) -> int {
    bsn((size.0 & 31u8) as int, (size.0 >> 5u8) as nat, 5)
}

/// The two fields of a block size stay in range.
proof fn lemma_block_size_fields(v: u8)
    ensures
        v & 31u8 <= 31,
        v >> 5u8 <= 7,
        v == ((v & 31u8) | ((v >> 5u8) << 5u8)),
{
    assert(v & 31u8 <= 31 && v >> 5u8 <= 7 && v == ((v & 31u8) | ((v >> 5u8) << 5u8))) by (bit_vector);
}

/// Every block size stands for at most 8033 blocks, the largest one for
/// exactly 8033.
pub proof fn lemma_block_count_bound(v: u8)
    ensures
        0 <= spec_block_count(BlockSize(v)) <= 8033,
        v == 255 ==> spec_block_count(BlockSize(v)) == 8033,
{
    lemma_block_size_fields(v);
    lemma2_to64();
    let c = (v & 31u8) as int;
    let e = (v >> 5u8) as nat;
    if v == 255 {
        assert(255u8 & 31u8 == 31u8 && 255u8 >> 5u8 == 7u8) by (bit_vector);
    }
    assert(0 <= c <= 31);
    let p = pow2(e);
    assert(1 <= p <= 128) by {
        if e == 0 {
        } else if e == 1 {
        } else if e == 2 {
        } else if e == 3 {
        } else if e == 4 {
        } else if e == 5 {
        } else if e == 6 {
        } else {
            assert(e == 7);
        }
    }
    assert(0 <= c * p <= 31 * p) by (nonlinear_arith)
        requires
            0 <= c <= 31,
            p >= 1,
    ;
}

/// [`block_size_notation`] with a 5-bit count orders its values as the
/// pairs (exponent, count) are ordered: a larger exponent, or the same
/// exponent and a larger count, always gives more blocks, so distinct sizes
/// give distinct counts, from 0 for (0, 0) up to 8033 for (7, 31). Every
/// such call meets the function's `requires`, and its result is the
/// [`bsn`] stated here.
pub proof fn law_block_size_notation_increasing(c1: u64, e1: u32, c2: u64, e2: u32)
    requires
        c1 <= 31,
        c2 <= 31,
        e1 <= 7,
        e2 <= 7,
        e1 < e2 || (e1 == e2 && c1 < c2),
    ensures
        bsn(c1 as int, e1 as nat, 5) < bsn(c2 as int, e2 as nat, 5),
        bsn(c2 as int, e2 as nat, 5) <= 8033,
        bsn(0, 0, 5) == 0,
        bsn(31, 7, 5) == 8033,
{
    lemma_bsn_increasing(c1 as int, e1 as nat, c2 as int, e2 as nat);
    lemma_bsn_increasing(c2 as int, e2 as nat, 31, 7);
}

/// [`law_block_size_notation_increasing`] over integers, with the largest
/// pair allowed on the right.
proof fn lemma_bsn_increasing(c1: int, e1: nat, c2: int, e2: nat)
    requires
        0 <= c1 <= 31,
        0 <= c2 <= 31,
        e1 <= 7,
        e2 <= 7,
        e1 < e2 || (e1 == e2 && c1 <= c2),
    ensures
        bsn(c1, e1, 5) <= bsn(c2, e2, 5),
        e1 < e2 || c1 < c2 ==> bsn(c1, e1, 5) < bsn(c2, e2, 5),
        bsn(0, 0, 5) == 0,
        bsn(31, 7, 5) == 8033,
{
    lemma2_to64();
    lemma_pow2_pos(e1);
    lemma_pow2_pos(e2);
    let p1 = pow2(e1);
    let p2 = pow2(e2);
    let b1 = bsn(c1, e1, 5);
    let b2 = bsn(c2, e2, 5);
    if e1 < e2 {
        let d = (e2 - e1) as nat;
        lemma_pow2_adds(e1, d);
        lemma_pow2_pos(d);
        assert(pow2(d) >= 2) by {
            lemma_pow2_unfold(d);
            lemma_pow2_pos((d - 1) as nat);
        }
        assert(p2 == p1 * pow2(d));
        assert(p2 >= 2 * p1) by (nonlinear_arith)
            requires
                p2 == p1 * pow2(d),
                pow2(d) >= 2,
                p1 >= 1,
        ;
        assert(b1 < b2) by (nonlinear_arith)
            requires
                b1 == c1 * p1 + (p1 - 1) * 31 + if e1 > 0 { p1 as int } else { 0 },
                b2 == c2 * p2 + (p2 - 1) * 31 + p2,
                p2 >= 2 * p1,
                p1 >= 1,
                0 <= c1 <= 31,
                0 <= c2 <= 31,
        ;
    } else {
        assert(b1 <= b2 && (c1 < c2 ==> b1 < b2)) by (nonlinear_arith)
            requires
                b1 == c1 * p1 + (p1 - 1) * 31 + if e1 > 0 { p1 as int } else { 0 },
                b2 == c2 * p1 + (p1 - 1) * 31 + if e1 > 0 { p1 as int } else { 0 },
                c1 <= c2,
                p1 >= 1,
        ;
    }
}

impl BlockSize {
    /// The largest block count a block size can stand for.
    pub const MAX_BLOCK_COUNT: u16 = 8033;

    /// The block size with the given count and exponent fields.
    pub fn new(block_count: u8, exponent: u8) -> (r: Self)
        requires
            block_count <= 0b11111,
            exponent <= 0b111,
        ensures
            r.0 == block_count | (exponent << 5u8),
            spec_block_count(r) == bsn(block_count as int, exponent as nat, 5),
    {
        let v = block_count | (exponent << 5);
        assert((v & 31u8) == block_count && (v >> 5u8) == exponent) by (bit_vector)
            requires
                block_count <= 31,
                exponent <= 7,
                v == block_count | (exponent << 5u8),
        ;
        Self(v)
    }

    /// The number of blocks this size stands for.
    pub fn block_count(self) -> (r: u64)
        ensures
            r == spec_block_count(self),
    {
        proof {
            lemma_block_size_fields(self.0);
            lemma_block_count_bound(self.0);
        }
        let block_count = self.0 & 0b11111;
        let exponent = self.0 >> 5;
        block_size_notation(block_count as u64, exponent as u32, 5)
    }

    /// The smallest block size (in encoding order) that holds at least
    /// `blocks_required` blocks.
    pub fn required(blocks_required: u16) -> (r: Self)
        requires
            blocks_required <= Self::MAX_BLOCK_COUNT,
        ensures
            spec_block_count(r) >= blocks_required,
            forall|b: u8| b < r.0 ==> spec_block_count(BlockSize(b)) < blocks_required,
    {
        let mut v: u8 = 0;
        loop
            invariant
                blocks_required <= 8033,
                forall|b: u8| b < v ==> spec_block_count(BlockSize(b)) < blocks_required,
            decreases 255 - v,
        {
            let size = BlockSize(v);
            if size.block_count() >= blocks_required as u64 {
                return size;
            }
            if v == 255 {
                proof {
                    lemma_block_count_bound(v);
                }
                assert(false);
            }
            v = v + 1;
        }
    }
}

/// Where the data of a chunk starts (in blocks, upper 24 bits) and how many
/// blocks it takes (as a [`BlockSize`], lower 8 bits).
#[derive(Debug, Default, Clone, Copy, PartialEq, Eq, PartialOrd, Ord, Hash)]
pub struct SectorOffset(pub u32);

impl SectorOffset {
    /// The offset of the sector-offset table in a region file: it comes
    /// after the 8-byte timestamps of the 1024 chunks.
    pub const OFFSET: u64 = 8192;

    pub open spec fn spec_block_offset(self) -> u32 {
        self.0 >> 8u32
    }

    pub open spec fn spec_block_size(self) -> BlockSize {
        BlockSize((self.0 & 0xFFu32) as u8)
    }

    pub fn new(block_size: BlockSize, block_offset: u32) -> (r: Self)
        ensures
            r.0 == (block_offset << 8u32) | (block_size.0 as u32),
            block_offset < 0x100_0000 ==> r.spec_block_offset() == block_offset,
            r.spec_block_size() == block_size,
    {
        let v = (block_offset << 8) | (block_size.0 as u32);
        let s = block_size.0;
        assert((v >> 8u32 == block_offset || block_offset >= 0x100_0000) && ((v & 0xFFu32) as u8) == s) by (bit_vector)
            requires
                v == (block_offset << 8u32) | (s as u32),
        ;
        Self(v)
    }

    pub fn block_offset(self) -> (r: u32)
        ensures
            r == self.spec_block_offset(),
            r < 0x100_0000,
    {
        let v = self.0;
        assert(v >> 8u32 < 0x100_0000u32) by (bit_vector);
        self.0 >> 8
    }

    pub fn block_size(self) -> (r: BlockSize)
        ensures
            r == self.spec_block_size(),
    {
        BlockSize((self.0 & 0xFF) as u8)
    }

    /// The offset points at no block: its size field is zero.
    pub fn is_empty(self) -> (r: bool)
        ensures
            r == (self.spec_block_size().0 == 0),
    {
        self.block_size().0 == 0
    }

    /// The byte offset in the file of the first block.
    pub fn file_offset(self) -> (r: u64)
        ensures
            r == self.spec_block_offset() * 4096,
    {
        self.block_offset() as u64 * 4096
    }
}

} // verus!
