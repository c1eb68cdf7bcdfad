//! The binary layout of the parts of a chunk section: face occlusion,
//! light levels and the blocks that receive updates.
use vstd::prelude::*;
use crate::byteio::{lemma_skip_at, spec_u16_be, spec_u16_from_be, write_u16_be, ByteReader};
use crate::error::Error;
use crate::occlusion::Occlusion;
use crate::update::UpdateRef;

verus! {

/// Byte `i` of the packed form of 4096 occlusions: each group of four
/// 6-bit values fills three bytes, lowest bits first.
pub open spec fn occlusion_byte(o: Seq<Occlusion>, i: int) -> u8 {
    let g = i / 3;
    let o0 = o[4 * g].0;
    let o1 = o[4 * g + 1].0;
    let o2 = o[4 * g + 2].0;
    let o3 = o[4 * g + 3].0;
    if i % 3 == 0 {
        o0 | (o1 << 6u8)
    } else if i % 3 == 1 {
        (o1 >> 2u8) | (o2 << 4u8)
    } else {
        (o2 >> 4u8) | (o3 << 2u8)
    }
}

/// The 3072 bytes that hold 4096 occlusions.
pub open spec fn encode_occlusions(o: Seq<Occlusion>) -> Seq<u8> {
    Seq::new(3072, |i: int| occlusion_byte(o, i))
}

/// Occlusion `i` of 3072 packed bytes.
pub open spec fn occlusion_at(b: Seq<u8>, i: int) -> Occlusion {
    let g = i / 4;
    let x = b[3 * g];
    let y = b[3 * g + 1];
    let z = b[3 * g + 2];
    Occlusion(
        if i % 4 == 0 {
            x & 0b111111u8
        } else if i % 4 == 1 {
            (x >> 6u8) | ((y & 0b1111u8) << 2u8)
        } else if i % 4 == 2 {
            (y >> 4u8) | ((z & 0b11u8) << 4u8)
        } else {
            z >> 2u8
        },
    )
}

/// The 4096 occlusions that 3072 packed bytes stand for.
pub open spec fn decode_occlusions(b: Seq<u8>) -> Seq<Occlusion> {
    Seq::new(4096, |i: int| occlusion_at(b, i))
}

/// The number of occlusions with a hidden face.
pub open spec fn count_occluded(s: Seq<Occlusion>) -> nat
    decreases s.len(),
{
    if s.len() == 0 {
        0
    } else {
        count_occluded(s.drop_last()) + if s.last().0 != 0 {
            1nat
        } else {
            0nat
        }
    }
}

/// Counting one more occlusion.
proof fn lemma_count_step(s: Seq<Occlusion>, n: int)
    requires
        0 <= n < s.len(),
    ensures
        count_occluded(s.take(n + 1)) == count_occluded(s.take(n)) + if s[n].0 != 0 {
            1nat
        } else {
            0nat
        },
{
    assert(s.take(n + 1).drop_last() =~= s.take(n));
}

/// Unpacking a group of three bytes gives back four 6-bit values.
proof fn lemma_occlusion_group(o0: u8, o1: u8, o2: u8, o3: u8)
    requires
        o0 < 64,
        o1 < 64,
        o2 < 64,
        o3 < 64,
    ensures
        ({
            let x = o0 | (o1 << 6u8);
            let y = (o1 >> 2u8) | (o2 << 4u8);
            let z = (o2 >> 4u8) | (o3 << 2u8);
            &&& x & 0b111111u8 == o0
            &&& (x >> 6u8) | ((y & 0b1111u8) << 2u8) == o1
            &&& (y >> 4u8) | ((z & 0b11u8) << 4u8) == o2
            &&& z >> 2u8 == o3
        }),
{
    assert({
        let x = o0 | (o1 << 6u8);
        let y = (o1 >> 2u8) | (o2 << 4u8);
        let z = (o2 >> 4u8) | (o3 << 2u8);
        &&& x & 0b111111u8 == o0
        &&& (x >> 6u8) | ((y & 0b1111u8) << 2u8) == o1
        &&& (y >> 4u8) | ((z & 0b11u8) << 4u8) == o2
        &&& z >> 2u8 == o3
    }) by (bit_vector)
        requires
            o0 < 64,
            o1 < 64,
            o2 < 64,
            o3 < 64,
    ;
}

/// Occlusions whose values fit in six bits are read back as written.
pub proof fn law_occlusion_roundtrip(o: Seq<Occlusion>)
    requires
        o.len() == 4096,
        forall|i: int| 0 <= i < 4096 ==> (#[trigger] o[i]).0 < 64,
    ensures
        decode_occlusions(encode_occlusions(o)) == o,
{
    let b = encode_occlusions(o);
    assert forall|i: int| 0 <= i < 4096 implies #[trigger] decode_occlusions(b)[i] == o[i] by {
        let g = i / 4;
        assert(0 <= g < 1024);
        assert((3 * g) / 3 == g && (3 * g + 1) / 3 == g && (3 * g + 2) / 3 == g);
        assert((3 * g) % 3 == 0 && (3 * g + 1) % 3 == 1 && (3 * g + 2) % 3 == 2);
        lemma_occlusion_group(o[4 * g].0, o[4 * g + 1].0, o[4 * g + 2].0, o[4 * g + 3].0);
    }
    assert(decode_occlusions(b) =~= o);
}

/// Writes a flag byte (1 when there are occlusions, 0 when not), then the
/// 4096 occlusions packed into 3072 bytes; returns the number of bytes
/// written.
pub fn write_section_occlusions(writer: &mut Vec<u8>, occlusions: &Option<Vec<Occlusion>>) -> (r: u64)
    requires
        occlusions matches Some(o) ==> o@.len() == 4096,
    ensures
        match occlusions {
            None => final(writer)@ == old(writer)@.push(0) && r == 1,
            Some(o) => final(writer)@ == old(writer)@.push(1) + encode_occlusions(o@) && r == 3073,
        },
{
    match occlusions {
        None => {
            writer.push(0);
            1
        },
        Some(o) => {
            writer.push(1);
            let ghost start = writer@;
            let ghost e = encode_occlusions(o@);
            let mut g: usize = 0;
            while g < 1024
                invariant
                    g <= 1024,
                    o@.len() == 4096,
                    e == encode_occlusions(o@),
                    writer@ == start + e.take(3 * g),
                decreases 1024 - g,
            {
                let o0 = o[4 * g].0;
                let o1 = o[4 * g + 1].0;
                let o2 = o[4 * g + 2].0;
                let o3 = o[4 * g + 3].0;
                writer.push(o0 | (o1 << 6));
                writer.push((o1 >> 2) | (o2 << 4));
                writer.push((o2 >> 4) | (o3 << 2));
                proof {
                    let gi = g as int;
                    assert((3 * gi) / 3 == gi && (3 * gi + 1) / 3 == gi && (3 * gi + 2) / 3 == gi);
                    assert((3 * gi) % 3 == 0 && (3 * gi + 1) % 3 == 1 && (3 * gi + 2) % 3 == 2);
                    assert(e.take(3 * gi + 3) =~= e.take(3 * gi).push(e[3 * gi]).push(e[3 * gi + 1]).push(e[3 * gi + 2]));
                }
                g = g + 1;
            }
            proof {
                assert(e.take(3072) =~= e);
            }
            3073
        },
    }
}

/// A buffer of `n` copies of `v`.
fn filled<T: Copy>(v: T, n: usize) -> (r: Vec<T>)
    ensures
        r@ == Seq::new(n as nat, |i: int| v),
{
    let mut r: Vec<T> = Vec::new();
    let mut i: usize = 0;
    while i < n
        invariant
            i <= n,
            r@ == Seq::new(i as nat, |k: int| v),
        decreases n - i,
    {
        r.push(v);
        proof {
            assert(r@ =~= Seq::new((i + 1) as nat, |k: int| v));
        }
        i = i + 1;
    }
    r
}

/// Reads what [`write_section_occlusions`] writes. `occlusion_count`
/// becomes the number of occlusions with a hidden face. When the flag is
/// 0 the occlusions become `None`; otherwise they are read into the
/// existing buffer (or a new one of 4096 unoccluded entries).
pub fn read_section_occlusions(
    reader: &mut ByteReader,
    occlusions: &mut Option<Vec<Occlusion>>,
    occlusion_count: &mut u16,
) -> (r: Result<(), Error>)
    requires
        old(reader).wf(),
        *old(occlusions) matches Some(o) ==> o@.len() == 4096,
    ensures
        final(reader).wf(),
        final(reader).bytes() == old(reader).bytes(),
        ({
            let b = old(reader).remaining();
            if b.len() == 0 {
                &&& r == Err::<(), Error>(Error::UnexpectedEnd)
                &&& *final(occlusions) == *old(occlusions)
                &&& *final(occlusion_count) == *old(occlusion_count)
            } else if b[0] == 0 {
                &&& r is Ok
                &&& *final(occlusions) is None
                &&& *final(occlusion_count) == 0
                &&& final(reader).position() == old(reader).position() + 1
            } else if b.len() < 3073 {
                &&& r == Err::<(), Error>(Error::UnexpectedEnd)
                &&& *final(occlusion_count) == 0
                &&& *final(occlusions) matches Some(v) && v@ == match *old(occlusions) {
                    Some(o) => o@,
                    None => Seq::new(4096, |i: int| Occlusion(0)),
                }
            } else {
                let d = decode_occlusions(b.subrange(1, 3073));
                &&& r is Ok
                &&& *final(occlusions) matches Some(v) && v@ == d
                &&& *final(occlusion_count) == count_occluded(d)
                &&& final(reader).position() == old(reader).position() + 3073
            }
        }),
{
    let ghost b = reader.remaining();
    let flag = match reader.read_bool() {
        Ok(f) => f,
        Err(e) => {
            return Err(e);
        },
    };
    *occlusion_count = 0;
    if !flag {
        *occlusions = None;
        return Ok(());
    }
    let mut buf = match occlusions.take() {
        Some(v) => v,
        None => filled(Occlusion(0), 4096),
    };
    let bytes = match reader.read_exact(3072) {
        Ok(bytes) => bytes,
        Err(e) => {
            *occlusions = Some(buf);
            return Err(e);
        },
    };
    proof {
        assert(bytes@ =~= b.subrange(1, 3073));
    }
    let ghost d = decode_occlusions(bytes@);
    let mut count: u16 = 0;
    let mut g: usize = 0;
    while g < 1024
        invariant
            g <= 1024,
            bytes@.len() == 3072,
            d == decode_occlusions(bytes@),
            buf@.len() == 4096,
            forall|i: int| 0 <= i < 4 * g ==> #[trigger] buf@[i] == d[i],
            count == count_occluded(d.take(4 * g)),
            count <= 4 * g,
        decreases 1024 - g,
    {
        let a = bytes[3 * g];
        let b1 = bytes[3 * g + 1];
        let c = bytes[3 * g + 2];
        let first = a & 0b111111;
        let second = (a >> 6) | ((b1 & 0b1111) << 2);
        let third = (b1 >> 4) | ((c & 0b11) << 4);
        let fourth = c >> 2;
        proof {
            let gi = g as int;
            assert((4 * gi) / 4 == gi && (4 * gi + 1) / 4 == gi && (4 * gi + 2) / 4 == gi && (4 * gi + 3) / 4 == gi);
            assert((4 * gi) % 4 == 0 && (4 * gi + 1) % 4 == 1 && (4 * gi + 2) % 4 == 2 && (4 * gi + 3) % 4 == 3);
            assert(d[4 * gi] == Occlusion(first));
            assert(d[4 * gi + 1] == Occlusion(second));
            assert(d[4 * gi + 2] == Occlusion(third));
            assert(d[4 * gi + 3] == Occlusion(fourth));
            lemma_count_step(d, 4 * gi);
            lemma_count_step(d, 4 * gi + 1);
            lemma_count_step(d, 4 * gi + 2);
            lemma_count_step(d, 4 * gi + 3);
        }
        buf.set(4 * g, Occlusion(first));
        if first != 0 {
            count = count + 1;
        }
        buf.set(4 * g + 1, Occlusion(second));
        if second != 0 {
            count = count + 1;
        }
        buf.set(4 * g + 2, Occlusion(third));
        if third != 0 {
            count = count + 1;
        }
        buf.set(4 * g + 3, Occlusion(fourth));
        if fourth != 0 {
            count = count + 1;
        }
        g = g + 1;
    }
    proof {
        assert(buf@ =~= d);
        assert(d.take(4096) =~= d);
    }
    *occlusions = Some(buf);
    *occlusion_count = count;
    Ok(())
}

/// The number of non-zero nibbles: each byte holds two 4-bit light levels.
pub open spec fn count_lit(s: Seq<u8>) -> nat
    decreases s.len(),
{
    if s.len() == 0 {
        0
    } else {
        count_lit(s.drop_last()) + (if s.last() & 0x0Fu8 != 0 {
            1nat
        } else {
            0nat
        }) + (if s.last() & 0xF0u8 != 0 {
            1nat
        } else {
            0nat
        })
    }
}

/// Writes a flag byte (1 when there is light, 0 when not), then the light
/// bytes; returns 2049 (the length of a full section's light) when there
/// is light and 1 when not.
pub fn write_section_light(writer: &mut Vec<u8>, block_light: &Option<Vec<u8>>) -> (r: u64)
    ensures
        match block_light {
            None => final(writer)@ == old(writer)@.push(0) && r == 1,
            Some(l) => final(writer)@ == old(writer)@.push(1) + l@ && r == 2049,
        },
{
    match block_light {
        None => {
            writer.push(0);
            1
        },
        Some(light) => {
            writer.push(1);
            let ghost start = writer@;
            let mut i: usize = 0;
            while i < light.len()
                invariant
                    i <= light@.len(),
                    writer@ == start + light@.take(i as int),
                decreases light@.len() - i,
            {
                writer.push(light[i]);
                proof {
                    assert(light@.take(i + 1) =~= light@.take(i as int).push(light@[i as int]));
                }
                i = i + 1;
            }
            proof {
                assert(light@.take(light@.len() as int) =~= light@);
            }
            2049
        },
    }
}

/// Reads what [`write_section_light`] writes for a section (2048 bytes of
/// light). `light_count` becomes the number of non-zero light levels.
pub fn read_section_light(
    reader: &mut ByteReader,
    block_light: &mut Option<Vec<u8>>,
    light_count: &mut u16,
) -> (r: Result<(), Error>)
    requires
        old(reader).wf(),
        *old(block_light) matches Some(l) ==> l@.len() == 2048,
    ensures
        final(reader).wf(),
        final(reader).bytes() == old(reader).bytes(),
        ({
            let b = old(reader).remaining();
            if b.len() == 0 {
                &&& r == Err::<(), Error>(Error::UnexpectedEnd)
                &&& *final(block_light) == *old(block_light)
                &&& *final(light_count) == *old(light_count)
            } else if b[0] == 0 {
                &&& r is Ok
                &&& *final(block_light) is None
                &&& *final(light_count) == 0
                &&& final(reader).position() == old(reader).position() + 1
            } else if b.len() < 2049 {
                &&& r == Err::<(), Error>(Error::UnexpectedEnd)
                &&& *final(light_count) == 0
                &&& *final(block_light) matches Some(v) && v@ == match *old(block_light) {
                    Some(l) => l@,
                    None => Seq::new(2048, |i: int| 0u8),
                }
            } else {
                &&& r is Ok
                &&& *final(block_light) matches Some(v) && v@ == b.subrange(1, 2049)
                &&& *final(light_count) == count_lit(b.subrange(1, 2049))
                &&& final(reader).position() == old(reader).position() + 2049
            }
        }),
{
    let ghost b = reader.remaining();
    let flag = match reader.read_bool() {
        Ok(f) => f,
        Err(e) => {
            return Err(e);
        },
    };
    *light_count = 0;
    if !flag {
        *block_light = None;
        return Ok(());
    }
    let buf = match block_light.take() {
        Some(v) => v,
        None => filled(0u8, 2048),
    };
    let light = match reader.read_exact(buf.len()) {
        Ok(bytes) => bytes,
        Err(e) => {
            *block_light = Some(buf);
            return Err(e);
        },
    };
    proof {
        assert(light@ =~= b.subrange(1, 2049));
    }
    let mut count: u16 = 0;
    let mut i: usize = 0;
    while i < light.len()
        invariant
            i <= light@.len(),
            light@.len() == 2048,
            count == count_lit(light@.take(i as int)),
            count <= 2 * i,
        decreases light@.len() - i,
    {
        let l = light[i];
        proof {
            assert(light@.take(i + 1).drop_last() =~= light@.take(i as int));
        }
        if l & 0x0F != 0 {
            count = count + 1;
        }
        if l & 0xF0 != 0 {
            count = count + 1;
        }
        i = i + 1;
    }
    proof {
        assert(light@.take(2048) =~= light@);
    }
    *block_light = Some(light);
    *light_count = count;
    Ok(())
}

/// The indices of the non-null handles among the first `n`, each as a
/// `u16` (the low 16 bits of the index).
pub open spec fn enabled_indices(refs: Seq<UpdateRef>, n: int) -> Seq<u16>
    decreases n,
{
    if n <= 0 {
        Seq::empty()
    } else {
        let rest = enabled_indices(refs, n - 1);
        if refs[n - 1].0 != 0 {
            rest.push((n - 1) as u16)
        } else {
            rest
        }
    }
}

/// The big-endian bytes of a list of `u16`.
pub open spec fn u16s_be(s: Seq<u16>) -> Seq<u8>
    decreases s.len(),
{
    if s.len() == 0 {
        Seq::empty()
    } else {
        u16s_be(s.drop_last()) + spec_u16_be(s.last())
    }
}

/// Writes the number of blocks that receive updates, then the index of
/// each (both big-endian `u16`s); returns the number of bytes written.
pub fn write_enabled(writer: &mut Vec<u8>, update_refs: &Option<Vec<UpdateRef>>) -> (r: u64)
    requires
        update_refs matches Some(refs) ==> refs@.len() < 0x4000_0000_0000_0000,
    ensures
        match update_refs {
            None => final(writer)@ == old(writer)@ + spec_u16_be(0) && r == 2,
            Some(refs) => {
                let e = enabled_indices(refs@, refs@.len() as int);
                &&& final(writer)@ == old(writer)@ + spec_u16_be(e.len() as u16) + u16s_be(e)
                &&& r == 2 + 2 * e.len()
            },
        },
{
    match update_refs {
        None => {
            write_u16_be(writer, 0);
            2
        },
        Some(refs) => {
            let mut updates: Vec<u16> = Vec::new();
            let mut i: usize = 0;
            while i < refs.len()
                invariant
                    i <= refs@.len(),
                    updates@ == enabled_indices(refs@, i as int),
                    updates@.len() <= i,
                decreases refs@.len() - i,
            {
                if !refs[i].null() {
                    updates.push(i as u16);
                }
                i = i + 1;
            }
            let len = write_u16_be(writer, updates.len() as u16);
            let ghost start = writer@;
            let mut k: usize = 0;
            while k < updates.len()
                invariant
                    k <= updates@.len(),
                    writer@ == start + u16s_be(updates@.take(k as int)),
                decreases updates@.len() - k,
            {
                write_u16_be(writer, updates[k]);
                proof {
                    assert(updates@.take(k + 1).drop_last() =~= updates@.take(k as int));
                }
                k = k + 1;
            }
            proof {
                assert(updates@.take(updates@.len() as int) =~= updates@);
                assert(final(writer)@ =~= old(writer)@ + spec_u16_be(updates@.len() as u16) + u16s_be(updates@)) by {
                    assert(start == old(writer)@ + spec_u16_be(updates@.len() as u16));
                }
            }
            len + updates.len() as u64 * 2
        },
    }
}

/// The `n` big-endian `u16`s at the start of `b`.
pub open spec fn decode_u16s(b: Seq<u8>, n: int) -> Seq<u16> {
    Seq::new(n as nat, |i: int| spec_u16_from_be(b[2 * i], b[2 * i + 1]))
}

/// Reads what [`write_enabled`] writes: `enabled_count` becomes the count
/// and the indices are returned in order.
pub fn read_enabled(reader: &mut ByteReader, enabled_count: &mut u16) -> (r: Result<Vec<u16>, Error>)
    requires
        old(reader).wf(),
    ensures
        final(reader).wf(),
        final(reader).bytes() == old(reader).bytes(),
        ({
            let b = old(reader).remaining();
            if b.len() < 2 {
                &&& r == Err::<Vec<u16>, Error>(Error::UnexpectedEnd)
                &&& *final(enabled_count) == *old(enabled_count)
            } else {
                let n = spec_u16_from_be(b[0], b[1]) as int;
                &&& *final(enabled_count) == n
                &&& b.len() >= 2 + 2 * n ==> (r matches Ok(v) && v@ == decode_u16s(b.skip(2), n)
                    && final(reader).position() == old(reader).position() + 2 + 2 * n)
                &&& b.len() < 2 + 2 * n ==> r == Err::<Vec<u16>, Error>(Error::UnexpectedEnd)
            }
        }),
{
    let ghost b = reader.remaining();
    let ghost p0 = reader.position();
    let count = match reader.read_u16_be() {
        Ok(c) => c,
        Err(e) => {
            return Err(e);
        },
    };
    *enabled_count = count;
    let mut indices: Vec<u16> = Vec::new();
    let mut i: u16 = 0;
    while i < count
        invariant
            i <= count,
            *enabled_count == count,
            reader.wf(),
            reader.bytes() == old(reader).bytes(),
            b == old(reader).remaining(),
            0 <= p0 <= reader.bytes().len(),
            b.len() >= 2,
            count == spec_u16_from_be(b[0], b[1]),
            p0 == old(reader).position(),
            reader.position() == p0 + 2 + 2 * i,
            b.len() >= 2 + 2 * i,
            indices@ == decode_u16s(b.skip(2), i as int),
        decreases count - i,
    {
        let ghost rem = reader.remaining();
        let index = match reader.read_u16_be() {
            Ok(x) => x,
            Err(e) => {
                proof {
                    let all = reader.bytes();
                    assert(rem == all.skip(p0 + 2 + 2 * i));
                    assert(b == all.skip(p0));
                    assert(rem.len() == b.len() - 2 - 2 * i);
                    assert(b.len() < 2 + 2 * count);
                }
                return Err(e);
            },
        };
        proof {
            let all = reader.bytes();
            assert(rem == all.skip(p0 + 2 + 2 * i));
            assert(b == all.skip(p0));
            lemma_skip_at(all, p0 + 2 + 2 * i, 0);
            lemma_skip_at(all, p0 + 2 + 2 * i, 1);
            lemma_skip_at(all, p0, 2 + 2 * i);
            lemma_skip_at(all, p0, 3 + 2 * i);
        }
        indices.push(index);
        proof {
            assert(indices@ =~= decode_u16s(b.skip(2), i + 1));
        }
        i = i + 1;
    }
    Ok(indices)
}

/// The bytes of a list of `u16`: two per value, byte `2i` the high byte of
/// value `i`.
proof fn lemma_u16s_be_index(s: Seq<u16>)
    ensures
        u16s_be(s).len() == 2 * s.len(),
        forall|i: int| 0 <= i < s.len() ==> {
            &&& #[trigger] u16s_be(s)[2 * i] == spec_u16_be(s[i])[0]
            &&& u16s_be(s)[2 * i + 1] == spec_u16_be(s[i])[1]
        },
    decreases s.len(),
{
    if s.len() > 0 {
        let t = s.drop_last();
        lemma_u16s_be_index(t);
        assert forall|i: int| 0 <= i < s.len() implies {
            &&& #[trigger] u16s_be(s)[2 * i] == spec_u16_be(s[i])[0]
            &&& u16s_be(s)[2 * i + 1] == spec_u16_be(s[i])[1]
        } by {
            if i < t.len() {
                assert(s[i] == t[i]);
                assert(u16s_be(s)[2 * i] == u16s_be(t)[2 * i]);
                assert(u16s_be(s)[2 * i + 1] == u16s_be(t)[2 * i + 1]);
            }
        }
    }
}

/// Reading the block indices back gives the count and the indices that
/// were written.
pub proof fn law_enabled_roundtrip(e: Seq<u16>)
    requires
        e.len() <= u16::MAX,
    ensures
        ({
            let b = spec_u16_be(e.len() as u16) + u16s_be(e);
            &&& spec_u16_from_be(b[0], b[1]) == e.len()
            &&& b.len() == 2 + 2 * e.len()
            &&& decode_u16s(b.skip(2), e.len() as int) == e
        }),
{
    let b = spec_u16_be(e.len() as u16) + u16s_be(e);
    lemma_u16s_be_index(e);
    crate::byteio::lemma_u16_be_roundtrip(e.len() as u16, 0, 0);
    assert(b.skip(2) =~= u16s_be(e));
    assert forall|i: int| 0 <= i < e.len() implies #[trigger] decode_u16s(b.skip(2), e.len() as int)[i] == e[i] by {
        crate::byteio::lemma_u16_be_roundtrip(e[i], 0, 0);
        assert(u16s_be(e)[2 * i] == spec_u16_be(e[i])[0]);
    }
    assert(decode_u16s(b.skip(2), e.len() as int) =~= e);
}

/// Reading a section's light back gives the bytes that were written.
pub proof fn law_light_roundtrip(light: Seq<u8>)
    requires
        light.len() == 2048,
    ensures
        ({
            let b = seq![1u8] + light;
            &&& b.len() == 2049
            &&& b[0] != 0
            &&& b.subrange(1, 2049) == light
        }),
{
    assert((seq![1u8] + light).subrange(1, 2049) =~= light);
}

} // verus!
