//! The header of a region file: the timestamp table (1024 big-endian
//! `i64`), then the sector-offset table (1024 big-endian `u32`).
use vstd::prelude::*;
use crate::byteio::{lemma_skip_at, ByteReader};
use crate::error::Error;
use crate::record::{lemma_u32_be_roundtrip, spec_u32_be, spec_u32_from_be};
use crate::regioncoord::spec_region_index;
use crate::regiontable::RegionTable;
use crate::sectoroffset::SectorOffset;
use crate::timestamp::Timestamp;

verus! {

/// The eight bytes of an `i64`, most significant first.
pub open spec fn spec_i64_be(v: i64) -> Seq<u8> {
    let u = v as u64;
    seq![
        (u >> 56u64) as u8,
        (u >> 48u64) as u8,
        (u >> 40u64) as u8,
        (u >> 32u64) as u8,
        (u >> 24u64) as u8,
        (u >> 16u64) as u8,
        (u >> 8u64) as u8,
        u as u8,
    ]
}

/// The `i64` whose big-endian bytes start `b`.
pub open spec fn spec_i64_from_be(b: Seq<u8>) -> i64 {
    (((b[0] as u64) << 56u64) | ((b[1] as u64) << 48u64) | ((b[2] as u64) << 40u64) | ((b[3] as u64) << 32u64)
        | ((b[4] as u64) << 24u64) | ((b[5] as u64) << 16u64) | ((b[6] as u64) << 8u64) | (b[7] as u64)) as i64
}

/// Big-endian bytes give back the value they were made from.
proof fn lemma_i64_be_roundtrip(v: i64)
    ensures
        spec_i64_from_be(spec_i64_be(v)) == v,
{
    let u = v as u64;
    let b = spec_i64_be(v);
    assert((((((u >> 56u64) as u8) as u64) << 56u64) | ((((u >> 48u64) as u8) as u64) << 48u64)
        | ((((u >> 40u64) as u8) as u64) << 40u64) | ((((u >> 32u64) as u8) as u64) << 32u64)
        | ((((u >> 24u64) as u8) as u64) << 24u64) | ((((u >> 16u64) as u8) as u64) << 16u64)
        | ((((u >> 8u64) as u8) as u64) << 8u64) | ((u as u8) as u64)) == u) by (bit_vector);
    assert(u as i64 == v) by (bit_vector)
        requires
            u == v as u64,
    ;
}

/// The 12288 bytes of a header with timestamps `ts` and offsets `os`.
pub open spec fn header_bytes(ts: Seq<Timestamp>, os: Seq<SectorOffset>) -> Seq<u8> {
    Seq::new(
        12288,
        |i: int|
            if i < 8192 {
                spec_i64_be(ts[i / 8].seconds())[i % 8]
            } else {
                spec_u32_be(os[(i - 8192) / 4].0)[(i - 8192) % 4]
            },
    )
}

/// The timestamps that the first 8192 bytes of a header stand for.
pub open spec fn decode_timestamps(b: Seq<u8>) -> Seq<i64> {
    Seq::new(1024, |k: int| spec_i64_from_be(b.subrange(8 * k, 8 * k + 8)))
}

/// The sector offsets that bytes 8192 .. 12288 of a header stand for.
pub open spec fn decode_offsets(b: Seq<u8>) -> Seq<u32> {
    Seq::new(1024, |k: int| spec_u32_from_be(b.subrange(8192 + 4 * k, 8196 + 4 * k)))
}

/// The timestamp and the sector offset of each chunk of a region.
pub struct RegionHeader {
    pub timestamps: RegionTable<Timestamp>,
    pub offsets: RegionTable<SectorOffset>,
}

impl RegionHeader {
    /// The size of the header in bytes.
    pub const HEADER_SIZE: u64 = 12288;

    pub open spec fn wf(&self) -> bool {
        self.timestamps.wf() && self.offsets.wf()
    }

    /// A header with every entry at its default value.
    pub fn new() -> (r: Self)
        ensures
            r.wf(),
    {
        Self { timestamps: RegionTable::new(), offsets: RegionTable::new() }
    }

    pub fn get_timestamp(&self, x: i32, y: i32) -> (r: Timestamp)
        requires
            self.wf(),
        ensures
            r == self.timestamps.entries()[spec_region_index(x, y)],
    {
        self.timestamps.get(x, y)
    }

    /// Replaces a timestamp and returns the old one.
    pub fn set_timestamp(&mut self, x: i32, y: i32, timestamp: Timestamp) -> (r: Timestamp)
        requires
            old(self).wf(),
        ensures
            final(self).wf(),
            r == old(self).timestamps.entries()[spec_region_index(x, y)],
            final(self).timestamps.entries() == old(self).timestamps.entries().update(spec_region_index(x, y), timestamp),
            final(self).offsets.entries() == old(self).offsets.entries(),
    {
        self.timestamps.set(x, y, timestamp)
    }

    pub fn get_offset(&self, x: i32, y: i32) -> (r: SectorOffset)
        requires
            self.wf(),
        ensures
            r == self.offsets.entries()[spec_region_index(x, y)],
    {
        self.offsets.get(x, y)
    }

    /// Replaces a sector offset and returns the old one.
    pub fn set_offset(&mut self, x: i32, y: i32, offset: SectorOffset) -> (r: SectorOffset)
        requires
            old(self).wf(),
        ensures
            final(self).wf(),
            r == old(self).offsets.entries()[spec_region_index(x, y)],
            final(self).offsets.entries() == old(self).offsets.entries().update(spec_region_index(x, y), offset),
            final(self).timestamps.entries() == old(self).timestamps.entries(),
    {
        self.offsets.set(x, y, offset)
    }

    /// Appends the header's bytes and returns their number.
    pub fn write_to(&self, out: &mut Vec<u8>) -> (r: u64)
        requires
            self.wf(),
        ensures
            final(out)@ == old(out)@ + header_bytes(self.timestamps.entries(), self.offsets.entries()),
            r == 12288,
    {
        let ghost h = header_bytes(self.timestamps.entries(), self.offsets.entries());
        let ts = self.timestamps.iter();
        let os = self.offsets.iter();
        let mut i: usize = 0;
        while i < 1024
            invariant
                i <= 1024,
                ts@ == self.timestamps.entries(),
                os@ == self.offsets.entries(),
                ts@.len() == 1024,
                os@.len() == 1024,
                h == header_bytes(ts@, os@),
                out@ == old(out)@ + h.take(8 * i),
            decreases 1024 - i,
        {
            let u = ts[i].timestamp() as u64;
            let bytes: [u8; 8] = [
                (u >> 56) as u8,
                (u >> 48) as u8,
                (u >> 40) as u8,
                (u >> 32) as u8,
                (u >> 24) as u8,
                (u >> 16) as u8,
                (u >> 8) as u8,
                u as u8,
            ];
            let mut k: usize = 0;
            while k < 8
                invariant
                    k <= 8,
                    i < 1024,
                    ts@.len() == 1024,
                    os@.len() == 1024,
                    h == header_bytes(ts@, os@),
                    bytes@ == spec_i64_be(ts@[i as int].seconds()),
                    out@ == old(out)@ + h.take(8 * i + k),
                decreases 8 - k,
            {
                out.push(bytes[k]);
                proof {
                    let j = 8 * i + k;
                    assert(j / 8 == i && j % 8 == k);
                    assert(h.take(j + 1) =~= h.take(j as int).push(h[j as int]));
                }
                k = k + 1;
            }
            i = i + 1;
        }
        let mut i: usize = 0;
        while i < 1024
            invariant
                i <= 1024,
                ts@.len() == 1024,
                os@.len() == 1024,
                h == header_bytes(ts@, os@),
                out@ == old(out)@ + h.take(8192 + 4 * i),
            decreases 1024 - i,
        {
            let u = os[i].0;
            let bytes: [u8; 4] = [(u >> 24) as u8, (u >> 16) as u8, (u >> 8) as u8, u as u8];
            let mut k: usize = 0;
            while k < 4
                invariant
                    k <= 4,
                    i < 1024,
                    ts@.len() == 1024,
                    os@.len() == 1024,
                    h == header_bytes(ts@, os@),
                    bytes@ == spec_u32_be(os@[i as int].0),
                    out@ == old(out)@ + h.take(8192 + 4 * i + k),
                decreases 4 - k,
            {
                out.push(bytes[k]);
                proof {
                    let j = 8192 + 4 * i + k;
                    assert((j - 8192) / 4 == i && (j - 8192) % 4 == k);
                    assert(h.take(j + 1) =~= h.take(j as int).push(h[j as int]));
                }
                k = k + 1;
            }
            i = i + 1;
        }
        proof {
            assert(h.take(12288) =~= h);
        }
        12288
    }

    /// Reads a header; fails with [`Error::UnexpectedEnd`] (reading
    /// nothing) when fewer than 12288 bytes remain.
    pub fn read_from(reader: &mut ByteReader) -> (r: Result<Self, Error>)
        requires
            old(reader).wf(),
        ensures
            final(reader).wf(),
            final(reader).bytes() == old(reader).bytes(),
            old(reader).remaining().len() >= 12288 ==> (r matches Ok(h) && {
                let b = old(reader).remaining();
                &&& h.wf()
                &&& h.timestamps.entries().map_values(|t: Timestamp| t.seconds()) == decode_timestamps(b)
                &&& h.offsets.entries().map_values(|o: SectorOffset| o.0) == decode_offsets(b)
                &&& final(reader).position() == old(reader).position() + 12288
            }),
            old(reader).remaining().len() < 12288 ==> r == Err::<RegionHeader, Error>(Error::UnexpectedEnd)
                && final(reader).position() == old(reader).position(),
    {
        let ghost b = reader.remaining();
        let bytes = match reader.read_exact(12288) {
            Ok(bytes) => bytes,
            Err(e) => {
                return Err(e);
            },
        };
        proof {
            assert(bytes@ =~= b.take(12288));
        }
        let mut ts: Vec<Timestamp> = Vec::new();
        let mut i: usize = 0;
        while i < 1024
            invariant
                i <= 1024,
                bytes@.len() == 12288,
                bytes@ == b.take(12288),
                b.len() >= 12288,
                ts@.len() == i,
                forall|k: int| 0 <= k < i ==> (#[trigger] ts@[k]).seconds() == decode_timestamps(b)[k],
            decreases 1024 - i,
        {
            let o = 8 * i;
            let u = ((bytes[o] as u64) << 56) | ((bytes[o + 1] as u64) << 48) | ((bytes[o + 2] as u64) << 40)
                | ((bytes[o + 3] as u64) << 32) | ((bytes[o + 4] as u64) << 24) | ((bytes[o + 5] as u64) << 16)
                | ((bytes[o + 6] as u64) << 8) | (bytes[o + 7] as u64);
            proof {
                let s = b.subrange(8 * i, 8 * i + 8);
                assert(s[0] == bytes@[o as int] && s[1] == bytes@[o + 1] && s[2] == bytes@[o + 2] && s[3] == bytes@[o + 3]);
                assert(s[4] == bytes@[o + 4] && s[5] == bytes@[o + 5] && s[6] == bytes@[o + 6] && s[7] == bytes@[o + 7]);
            }
            ts.push(Timestamp::new(u as i64));
            i = i + 1;
        }
        let mut os: Vec<SectorOffset> = Vec::new();
        let mut i: usize = 0;
        while i < 1024
            invariant
                i <= 1024,
                bytes@.len() == 12288,
                bytes@ == b.take(12288),
                b.len() >= 12288,
                os@.len() == i,
                forall|k: int| 0 <= k < i ==> (#[trigger] os@[k]).0 == decode_offsets(b)[k],
            decreases 1024 - i,
        {
            let o = 8192 + 4 * i;
            let u = ((bytes[o] as u32) << 24) | ((bytes[o + 1] as u32) << 16) | ((bytes[o + 2] as u32) << 8)
                | (bytes[o + 3] as u32);
            proof {
                let s = b.subrange(8192 + 4 * i, 8196 + 4 * i);
                assert(s[0] == bytes@[o as int] && s[1] == bytes@[o + 1] && s[2] == bytes@[o + 2] && s[3] == bytes@[o + 3]);
            }
            os.push(SectorOffset(u));
            i = i + 1;
        }
        let header = RegionHeader { timestamps: RegionTable::from_entries(ts), offsets: RegionTable::from_entries(os) };
        proof {
            assert(header.timestamps.entries().map_values(|t: Timestamp| t.seconds()) =~= decode_timestamps(b));
            assert(header.offsets.entries().map_values(|o: SectorOffset| o.0) =~= decode_offsets(b));
        }
        Ok(header)
    }
}

/// Reading a header back gives the timestamps and offsets that were
/// written.
pub proof fn law_header_roundtrip(ts: Seq<Timestamp>, os: Seq<SectorOffset>)
    requires
        ts.len() == 1024,
        os.len() == 1024,
    ensures
        decode_timestamps(header_bytes(ts, os)) == ts.map_values(|t: Timestamp| t.seconds()),
        decode_offsets(header_bytes(ts, os)) == os.map_values(|o: SectorOffset| o.0),
{
    let h = header_bytes(ts, os);
    assert forall|k: int| 0 <= k < 1024 implies #[trigger] decode_timestamps(h)[k] == ts[k].seconds() by {
        assert(h.subrange(8 * k, 8 * k + 8) =~= spec_i64_be(ts[k].seconds())) by {
            assert forall|j: int| 0 <= j < 8 implies #[trigger] h.subrange(8 * k, 8 * k + 8)[j] == spec_i64_be(ts[k].seconds())[j] by {
                assert((8 * k + j) / 8 == k && (8 * k + j) % 8 == j);
            }
        }
        lemma_i64_be_roundtrip(ts[k].seconds());
    }
    assert forall|k: int| 0 <= k < 1024 implies #[trigger] decode_offsets(h)[k] == os[k].0 by {
        assert(h.subrange(8192 + 4 * k, 8196 + 4 * k) =~= spec_u32_be(os[k].0)) by {
            assert forall|j: int| 0 <= j < 4 implies #[trigger] h.subrange(8192 + 4 * k, 8196 + 4 * k)[j] == spec_u32_be(os[k].0)[j] by {
                assert((4 * k + j) / 4 == k && (4 * k + j) % 4 == j);
            }
        }
        lemma_u32_be_roundtrip(os[k].0);
    }
    assert(decode_timestamps(h) =~= ts.map_values(|t: Timestamp| t.seconds()));
    assert(decode_offsets(h) =~= os.map_values(|o: SectorOffset| o.0));
}

} // verus!
