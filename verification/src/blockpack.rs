//! The block part of a stored section, apart from the block states
//! themselves: the palette of distinct states, its count, the bit width of
//! an index into it, and the 4096 indices packed `width` bits each, least
//! significant bit first.
use vstd::prelude::*;
use vstd::arithmetic::div_mod::lemma_fundamental_div_mod_converse;
use vstd::arithmetic::power2::pow2;
use std::collections::HashMap;
use vstd::std_specs::hash::*;
use crate::blocks::Id;
use crate::byteio::{spec_u16_be, spec_u16_from_be, ByteReader};
use crate::section::{count_where, non_air};
use crate::error::Error;
use crate::bits::{
    bit16, bit8, lemma_bit16_update, lemma_bit8_update, lemma_u16_bits_eq, lemma_u16_high_bits_clear, lemma_zero_bits,
};

verus! {

/// Bit `j` of a byte stream: bit `j % 8` of byte `j / 8`.
pub open spec fn stream_bit(bytes: Seq<u8>, j: int) -> bool {
    bit8(bytes[j / 8], (j % 8) as u8)
}

/// Bit `j` of the stream of `indices`, each `width` bits long, least
/// significant bit first.
pub open spec fn packed_bit(indices: Seq<u16>, width: int, j: int) -> bool {
    bit16(indices[j / width], (j % width) as u16)
}

/// `packed` is `indices` packed `width` bits each.
pub open spec fn is_packing(indices: Seq<u16>, width: int, packed: Seq<u8>) -> bool {
    &&& packed.len() == 512 * width
    &&& forall|j: int| 0 <= j < 4096 * width ==> #[trigger] stream_bit(packed, j) == packed_bit(indices, width, j)
}

/// `unpacked` holds the 4096 values of `width` bits each read from `packed`.
pub open spec fn is_unpacking(packed: Seq<u8>, width: int, unpacked: Seq<u16>) -> bool {
    &&& unpacked.len() == 4096
    &&& forall|i: int, b: int|
        0 <= i < 4096 && 0 <= b < 16 ==> #[trigger] bit16(unpacked[i], b as u16) == (b < width && stream_bit(
            packed,
            i * width + b,
        ))
}

/// Position `j` of a stream of `width`-bit values is bit `j % width` of value
/// `j / width`, and value `i`'s bit `b` sits at `i * width + b`.
proof fn lemma_stream_position(i: int, b: int, width: int)
    requires
        0 <= b < width,
        0 <= i,
    ensures
        (i * width + b) / width == i,
        (i * width + b) % width == b,
{
    lemma_fundamental_div_mod_converse(i * width + b, width, i, b);
}

/// Packs 4096 indices of `width` bits each into `512 * width` bytes: bit `j`
/// of the stream is bit `j % width` of index `j / width`.
pub fn pack_indices(indices: &Vec<u16>, width: usize) -> (r: Vec<u8>)
    requires
        indices@.len() == 4096,
        1 <= width <= 12,
    ensures
        is_packing(indices@, width as int, r@),
{
    let total: usize = 4096 * width;
    let n_bytes: usize = 512 * width;
    let mut bytes: Vec<u8> = Vec::new();
    let mut k: usize = 0;
    while k < n_bytes
        invariant
            n_bytes == 512 * width,
            k <= n_bytes,
            bytes@.len() == k,
            forall|m: int| 0 <= m < k ==> bytes@[m] == 0u8,
        decreases n_bytes - k,
    {
        bytes.push(0);
        k = k + 1;
    }
    proof {
        assert forall|jj: int| 0 <= jj < total implies !#[trigger] stream_bit(bytes@, jj) by {
            lemma_zero_bits((jj % 8) as u64);
        }
    }
    let mut j: usize = 0;
    while j < total
        invariant
            total == 4096 * width,
            1 <= width <= 12,
            indices@.len() == 4096,
            j <= total,
            bytes@.len() == 512 * width,
            forall|jj: int| 0 <= jj < total ==> #[trigger] stream_bit(bytes@, jj) == (jj < j && packed_bit(
                indices@,
                width as int,
                jj,
            )),
        decreases total - j,
    {
        let i = j / width;
        let b = j % width;
        proof {
            assert(i < 4096) by (nonlinear_arith)
                requires
                    i == j / width,
                    j < 4096 * width,
                    width >= 1,
            ;
        }
        let ghost before = bytes@;
        if indices[i] & (1u16 << (b as u16)) != 0 {
            let byte = bytes[j / 8];
            bytes.set(j / 8, byte | (1u8 << ((j % 8) as u8)));
            proof {
                assert forall|jj: int| 0 <= jj < total implies #[trigger] stream_bit(bytes@, jj) == (jj < j + 1
                    && packed_bit(indices@, width as int, jj)) by {
                    lemma_bit8_update(byte, (j % 8) as u8, (jj % 8) as u8);
                    if jj / 8 != j / 8 {
                        assert(bytes@[jj / 8] == before[jj / 8]);
                    }
                    assert(stream_bit(before, jj) == (jj < j && packed_bit(indices@, width as int, jj)));
                }
            }
        } else {
            proof {
                assert forall|jj: int| 0 <= jj < total implies #[trigger] stream_bit(bytes@, jj) == (jj < j + 1
                    && packed_bit(indices@, width as int, jj)) by {
                    assert(stream_bit(before, jj) == (jj < j && packed_bit(indices@, width as int, jj)));
                }
            }
        }
        j = j + 1;
    }
    bytes
}

/// Unpacks 4096 indices of `width` bits each from `512 * width` bytes: bit
/// `b` of index `i` is bit `i * width + b` of the stream, and the bits from
/// `width` up are clear.
pub fn unpack_indices(bytes: &Vec<u8>, width: usize) -> (r: Vec<u16>)
    requires
        bytes@.len() == 512 * width,
        1 <= width <= 12,
    ensures
        is_unpacking(bytes@, width as int, r@),
{
    let total: usize = 4096 * width;
    let mut out: Vec<u16> = Vec::new();
    let mut k: usize = 0;
    while k < 4096
        invariant
            k <= 4096,
            out@.len() == k,
            forall|m: int| 0 <= m < k ==> out@[m] == 0u16,
        decreases 4096 - k,
    {
        out.push(0);
        k = k + 1;
    }
    proof {
        assert forall|ii: int, bb: int| 0 <= ii < 4096 && 0 <= bb < 16 implies !#[trigger] bit16(out@[ii], bb as u16) by {
            lemma_zero_bits(bb as u64);
        }
    }
    let mut j: usize = 0;
    while j < total
        invariant
            total == 4096 * width,
            1 <= width <= 12,
            bytes@.len() == 512 * width,
            out@.len() == 4096,
            j <= total,
            forall|ii: int, bb: int|
                0 <= ii < 4096 && 0 <= bb < 16 ==> #[trigger] bit16(out@[ii], bb as u16) == (bb < width && ii * width
                    + bb < j && stream_bit(bytes@, ii * width + bb)),
        decreases total - j,
    {
        let i = j / width;
        let b = j % width;
        proof {
            assert(i < 4096) by (nonlinear_arith)
                requires
                    i == j / width,
                    j < 4096 * width,
                    width >= 1,
            ;
            vstd::arithmetic::div_mod::lemma_fundamental_div_mod(j as int, width as int);
            assert(j == i * width + b) by (nonlinear_arith)
                requires
                    j == width * i + b,
            ;
        }
        let ghost before = out@;
        let byte = bytes[j / 8];
        if byte & (1u8 << ((j % 8) as u8)) != 0 {
            let v = out[i];
            out.set(i, v | (1u16 << (b as u16)));
            proof {
                assert forall|ii: int, bb: int| 0 <= ii < 4096 && 0 <= bb < 16 implies #[trigger] bit16(
                    out@[ii],
                    bb as u16,
                ) == (bb < width && ii * width + bb < j + 1 && stream_bit(bytes@, ii * width + bb)) by {
                    assert(bit16(before[ii], bb as u16) == (bb < width && ii * width + bb < j && stream_bit(
                        bytes@,
                        ii * width + bb,
                    )));
                    if bb < width {
                        lemma_stream_position(ii, bb, width as int);
                    }
                    if ii == i {
                        lemma_bit16_update(v, b as u16, bb as u16);
                    }
                }
            }
        } else {
            proof {
                assert forall|ii: int, bb: int| 0 <= ii < 4096 && 0 <= bb < 16 implies #[trigger] bit16(
                    out@[ii],
                    bb as u16,
                ) == (bb < width && ii * width + bb < j + 1 && stream_bit(bytes@, ii * width + bb)) by {
                    assert(bit16(before[ii], bb as u16) == (bb < width && ii * width + bb < j && stream_bit(
                        bytes@,
                        ii * width + bb,
                    )));
                    if bb < width {
                        lemma_stream_position(ii, bb, width as int);
                    }
                }
            }
        }
        j = j + 1;
    }
    proof {
        assert forall|ii: int, bb: int| 0 <= ii < 4096 && 0 <= bb < 16 && bb < width implies #[trigger] bit16(
            out@[ii],
            bb as u16,
        ) == stream_bit(bytes@, ii * width + bb) by {
            assert(ii * width + bb < 4096 * width) by (nonlinear_arith)
                requires
                    0 <= ii < 4096,
                    0 <= bb < width,
            ;
        }
    }
    out
}

/// Unpacking gives back the indices that were packed, when each fits in
/// `width` bits.
pub proof fn law_pack_roundtrip(indices: Seq<u16>, width: int, packed: Seq<u8>, unpacked: Seq<u16>)
    requires
        indices.len() == 4096,
        1 <= width <= 12,
        forall|i: int| 0 <= i < 4096 ==> #[trigger] indices[i] < pow2(width as nat),
        is_packing(indices, width, packed),
        is_unpacking(packed, width, unpacked),
    ensures
        unpacked == indices,
{
    vstd::arithmetic::power2::lemma2_to64();
    if width < 12 {
        vstd::arithmetic::power2::lemma_pow2_strictly_increases(width as nat, 12);
    }
    vstd::bits::lemma_u16_shl_is_mul(1, width as u16);
    assert forall|i: int| 0 <= i < 4096 implies unpacked[i] == indices[i] by {
        assert forall|b: u16| b < 16 implies #[trigger] bit16(unpacked[i], b) == bit16(indices[i], b) by {
            let bi = b as int;
            assert(bit16(unpacked[i], bi as u16) == (bi < width && stream_bit(packed, i * width + bi)));
            if b < width {
                lemma_stream_position(i, b as int, width);
                assert(i * width + b < 4096 * width) by (nonlinear_arith)
                    requires
                        0 <= i < 4096,
                        0 <= b < width,
                ;
                assert(stream_bit(packed, i * width + b as int) == packed_bit(indices, width, i * width + b as int));
            } else {
                lemma_u16_high_bits_clear(indices[i], width as u16, b);
            }
        }
        lemma_u16_bits_eq(unpacked[i], indices[i]);
    }
    assert(unpacked =~= indices);
}

/// The distinct states of `s` in order of first appearance.
pub open spec fn palette_of(s: Seq<Id>) -> Seq<Id>
    decreases s.len(),
{
    if s.len() == 0 {
        Seq::empty()
    } else {
        let p = palette_of(s.drop_last());
        if p.contains(s.last()) {
            p
        } else {
            p.push(s.last())
        }
    }
}

/// The palette holds each state of `s` once.
pub proof fn lemma_palette_of(s: Seq<Id>)
    ensures
        palette_of(s).no_duplicates(),
        forall|x: Id| palette_of(s).contains(x) <==> s.contains(x),
        palette_of(s).len() <= s.len(),
    decreases s.len(),
{
    if s.len() > 0 {
        let t = s.drop_last();
        lemma_palette_of(t);
        assert forall|x: Id| s.contains(x) <==> (t.contains(x) || x == s.last()) by {
            if s.contains(x) {
                let i = choose|i: int| 0 <= i < s.len() && s[i] == x;
                if i < s.len() - 1 {
                    assert(t[i] == x);
                }
            }
            if t.contains(x) {
                let i = choose|i: int| 0 <= i < t.len() && t[i] == x;
                assert(s[i] == x);
            }
            if x == s.last() {
                assert(s[s.len() - 1] == x);
            }
        }
        let p = palette_of(t);
        if !p.contains(s.last()) {
            assert forall|x: Id| p.push(s.last()).contains(x) <==> (p.contains(x) || x == s.last()) by {
                if p.push(s.last()).contains(x) {
                    let i = choose|i: int| 0 <= i < p.len() + 1 && p.push(s.last())[i] == x;
                    if i < p.len() {
                        assert(p[i] == x);
                    }
                }
                if p.contains(x) {
                    let i = choose|i: int| 0 <= i < p.len() && p[i] == x;
                    assert(p.push(s.last())[i] == x);
                }
                if x == s.last() {
                    assert(p.push(s.last())[p.len() as int] == x);
                }
            }
        }
    } else {
        assert forall|x: Id| !s.contains(x) by {}
        assert forall|x: Id| !palette_of(s).contains(x) by {}
    }
}

/// The bit width of an index into a palette of `count` states: the
/// smallest `w` with `count <= 2^w` (what `count.next_power_of_two()
/// .trailing_zeros()` gives).
pub fn index_bit_width(count: u16) -> (w: usize)
    requires
        1 <= count <= 4096,
    ensures
        w <= 12,
        count <= pow2(w as nat),
        w == 0 || pow2((w - 1) as nat) < count,
{
    let mut w: usize = 0;
    let mut p: u32 = 1;
    proof {
        vstd::arithmetic::power2::lemma2_to64();
    }
    while p < count as u32
        invariant
            1 <= count <= 4096,
            w <= 12,
            p == pow2(w as nat),
            p <= 4096,
            w == 0 || pow2((w - 1) as nat) < count,
        decreases 4096 - p,
    {
        proof {
            vstd::arithmetic::power2::lemma_pow2_unfold((w + 1) as nat);
            vstd::arithmetic::power2::lemma2_to64();
            if w >= 12 {
                vstd::arithmetic::power2::lemma_pow2_strictly_increases(12, w as nat);
            }
        }
        p = p * 2;
        w = w + 1;
    }
    w
}

/// The palette of `blocks` (each distinct state once, in order of first
/// appearance) and the position in it of each block.
pub fn block_palette(blocks: &Vec<Id>) -> (r: (Vec<Id>, Vec<u16>))
    requires
        blocks@.len() == 4096,
    ensures
        r.0@ == palette_of(blocks@),
        r.1@.len() == 4096,
        forall|i: int| 0 <= i < 4096 ==> (#[trigger] r.1@[i]) < r.0@.len() && r.0@[r.1@[i] as int] == blocks@[i],
{
    broadcast use group_hash_axioms;

    let mut map: HashMap<u32, u16> = HashMap::new();
    let mut palette: Vec<Id> = Vec::new();
    let mut indices: Vec<u16> = Vec::new();
    let mut i: usize = 0;
    while i < 4096
        invariant
            blocks@.len() == 4096,
            i <= 4096,
            palette@ == palette_of(blocks@.take(i as int)),
            palette@.len() <= i,
            indices@.len() == i,
            forall|j: int| 0 <= j < i ==> (#[trigger] indices@[j]) < palette@.len() && palette@[indices@[j] as int]
                == blocks@[j],
            forall|k: int| 0 <= k < palette@.len() ==> map@.contains_key(#[trigger] palette@[k].0) && map@[palette@[k].0] == k,
            forall|key: u32| #[trigger] map@.contains_key(key) ==> map@[key] < palette@.len() && palette@[map@[key] as int].0 == key,
        decreases 4096 - i,
    {
        let id = blocks[i];
        proof {
            lemma_palette_of(blocks@.take(i as int));
            assert(blocks@.take(i as int + 1).drop_last() =~= blocks@.take(i as int));
            assert(blocks@.take(i as int + 1).last() == id);
        }
        match map.get(&id.0) {
            Some(k) => {
                let k = *k;
                proof {
                    assert(palette@[k as int] == id);
                    assert(palette@.contains(id));
                }
                indices.push(k);
            },
            None => {
                let k = palette.len() as u16;
                proof {
                    if palette@.contains(id) {
                        let m = choose|m: int| 0 <= m < palette@.len() && palette@[m] == id;
                        assert(map@.contains_key(palette@[m].0));
                    }
                }
                map.insert(id.0, k);
                palette.push(id);
                indices.push(k);
                proof {
                    assert forall|kk: int| 0 <= kk < palette@.len() implies map@.contains_key(
                        #[trigger] palette@[kk].0,
                    ) && map@[palette@[kk].0] == kk by {
                        if kk < palette@.len() - 1 {
                            lemma_palette_of(blocks@.take(i as int));
                            assert(palette@[kk] != id);
                        }
                    }
                }
            },
        }
        i = i + 1;
    }
    proof {
        assert(blocks@.take(4096) =~= blocks@);
    }
    (palette, indices)
}

/// The bytes that give a palette's size: one byte below 128, else the size
/// with its top bit set, as two big-endian bytes.
pub open spec fn spec_count_bytes(count: u16) -> Seq<u8> {
    if count < 128 {
        seq![count as u8]
    } else {
        spec_u16_be(count | 0x8000u16)
    }
}

/// The palette size at the start of `bytes` and how many bytes give it, or
/// `None` where the bytes end first.
pub open spec fn spec_read_count(bytes: Seq<u8>) -> Option<(u16, int)> {
    if bytes.len() == 0 {
        None
    } else if bytes[0] & 0x80u8 == 0 {
        Some((bytes[0] as u16, 1))
    } else if bytes.len() == 1 {
        None
    } else {
        Some((spec_u16_from_be(bytes[0] & 0x7Fu8, bytes[1]), 2))
    }
}

/// The bytes that give a palette of `count` states (0 for a section of air).
pub fn palette_count_bytes(count: u16) -> (r: Vec<u8>)
    requires
        count < 0x8000,
    ensures
        r@ == spec_count_bytes(count),
{
    let mut out: Vec<u8> = Vec::new();
    if count < 128 {
        out.push(count as u8);
        assert(out@ =~= spec_count_bytes(count));
    } else {
        crate::byteio::write_u16_be(&mut out, count | 0x8000);
        assert(out@ =~= spec_count_bytes(count));
    }
    out
}

/// Reads the size of a palette.
pub fn read_palette_count(reader: &mut ByteReader) -> (r: Result<u16, Error>)
    requires
        old(reader).wf(),
    ensures
        final(reader).wf(),
        final(reader).bytes() == old(reader).bytes(),
        match spec_read_count(old(reader).remaining()) {
            Some((count, n)) => r == Ok::<u16, Error>(count) && final(reader).position() == old(reader).position() + n,
            None => r == Err::<u16, Error>(Error::UnexpectedEnd),
        },
{
    let first = match reader.read_u8() {
        Ok(b) => b,
        Err(e) => {
            return Err(e);
        },
    };
    if first & 0x80 == 0 {
        return Ok(first as u16);
    }
    let ghost rem0 = old(reader).remaining();
    proof {
        assert(reader.remaining() =~= rem0.skip(1));
    }
    let second = match reader.read_u8() {
        Ok(b) => b,
        Err(e) => {
            return Err(e);
        },
    };
    Ok((((first & 0x7F) as u16) << 8) | (second as u16))
}

/// Reading the size bytes back gives the size.
pub proof fn law_count_roundtrip(count: u16)
    requires
        count < 0x8000,
    ensures
        spec_read_count(spec_count_bytes(count)) == Some((count, spec_count_bytes(count).len() as int)),
{
    let v = count | 0x8000u16;
    let lo: u8 = count as u8;
    let hi: u8 = (v >> 8u16) as u8;
    let lo2: u8 = (v & 0xFFu16) as u8;
    assert((count < 128 ==> lo & 0x80u8 == 0 && lo as u16 == count) && (count >= 128 ==> hi & 0x80u8 != 0
        && (((hi & 0x7Fu8) as u16) << 8u16) | (lo2 as u16) == count)) by (bit_vector)
        requires
            count < 0x8000,
            v == count | 0x8000u16,
            lo == count as u8,
            hi == (v >> 8u16) as u8,
            lo2 == (v & 0xFFu16) as u8,
    ;
}

/// The blocks that `indices` name in `palette`, and how many are not air.
pub fn blocks_from_indices(palette: &Vec<Id>, indices: &Vec<u16>) -> (r: (Vec<Id>, u16))
    requires
        indices@.len() == 4096,
        forall|i: int| 0 <= i < 4096 ==> (#[trigger] indices@[i]) < palette@.len(),
    ensures
        r.0@.len() == 4096,
        forall|i: int| 0 <= i < 4096 ==> #[trigger] r.0@[i] == palette@[indices@[i] as int],
        r.1 == count_where(r.0@, non_air()),
{
    let mut blocks: Vec<Id> = Vec::new();
    let mut count: u16 = 0;
    let mut i: usize = 0;
    while i < 4096
        invariant
            indices@.len() == 4096,
            forall|k: int| 0 <= k < 4096 ==> (#[trigger] indices@[k]) < palette@.len(),
            i <= 4096,
            blocks@.len() == i,
            forall|k: int| 0 <= k < i ==> #[trigger] blocks@[k] == palette@[indices@[k] as int],
            count == count_where(blocks@, non_air()),
            count <= i,
        decreases 4096 - i,
    {
        let id = palette[indices[i] as usize];
        let ghost before = blocks@;
        blocks.push(id);
        proof {
            assert(blocks@.drop_last() =~= before);
        }
        if id.0 != 0 {
            count = count + 1;
        }
        i = i + 1;
    }
    (blocks, count)
}

/// A section's blocks come back from their palette, their packed indices
/// and the bit width of the palette's size.
pub proof fn law_section_blocks_roundtrip(
    blocks: Seq<Id>,
    palette: Seq<Id>,
    indices: Seq<u16>,
    width: int,
    packed: Seq<u8>,
    unpacked: Seq<u16>,
    decoded: Seq<Id>,
)
    requires
        blocks.len() == 4096,
        palette == palette_of(blocks),
        indices.len() == 4096,
        forall|i: int| 0 <= i < 4096 ==> (#[trigger] indices[i]) < palette.len() && palette[indices[i] as int] == blocks[i],
        1 <= width <= 12,
        palette.len() <= pow2(width as nat),
        is_packing(indices, width, packed),
        is_unpacking(packed, width, unpacked),
        decoded.len() == 4096,
        forall|i: int| 0 <= i < 4096 ==> #[trigger] decoded[i] == palette[unpacked[i] as int],
    ensures
        unpacked == indices,
        decoded == blocks,
{
    law_pack_roundtrip(indices, width, packed, unpacked);
    assert(decoded =~= blocks);
}

} // verus!
