//! The record that holds a chunk in a region file: the length of the
//! compressed data as a big-endian `u32`, the gzip-compressed data, then
//! zeros up to a whole number of 4096-byte blocks.
use vstd::prelude::*;
use crate::error::Error;
use crate::regionfile::pad_size;

verus! {

/// What `flate2`'s `GzEncoder` at `Compression::fast()` writes for `data`.
pub uninterp spec fn gzip_fast(data: Seq<u8>) -> Seq<u8>;

/// What `flate2`'s `GzDecoder` reads from `data`: the decompressed bytes,
/// or `None` when `data` does not start with a well-formed gzip member.
pub uninterp spec fn gunzip_of(data: Seq<u8>) -> Option<Seq<u8>>;

/// Compresses `data` with `flate2::write::GzEncoder` (default header,
/// `Compression::fast()`) into a `Vec`. The encoder's writes go into the
/// `Vec`, which never fails, so the result is `Ok` of [`gzip_fast`] of the
/// input.
#[verifier::external_body]
fn gzip(data: &[u8]) -> (r: Result<Vec<u8>, Error>)
    ensures
        r is Ok,
        ok_bytes(r) == Some(gzip_fast(data@)),
{
    let mut encoder = flate2::write::GzEncoder::new(Vec::new(), flate2::Compression::fast());
    match std::io::Write::write_all(&mut encoder, data) {
        Ok(()) => {},
        Err(_) => return Err(Error::InvalidData),
    }
    match encoder.finish() {
        Ok(v) => Ok(v),
        Err(_) => Err(Error::InvalidData),
    }
}

/// Decompresses one gzip member with `flate2::read::GzDecoder`, reading to
/// the end. The result is [`gunzip_of`] of the input. Gzip is lossless: on
/// the output of [`gzip_fast`] it gives back the bytes that were
/// compressed.
#[verifier::external_body]
fn gunzip(data: &[u8]) -> (r: Option<Vec<u8>>)
    ensures
        bytes_of(r) == gunzip_of(data@),
        forall|x: Seq<u8>| data@ == gzip_fast(x) ==> bytes_of(r) == Some(x),
{
    let mut decoder = flate2::read::GzDecoder::new(data);
    let mut out: Vec<u8> = Vec::new();
    match std::io::Read::read_to_end(&mut decoder, &mut out) {
        Ok(_) => Some(out),
        Err(_) => None,
    }
}

/// The bytes of a successful result.
pub open spec fn ok_bytes(r: Result<Vec<u8>, Error>) -> Option<Seq<u8>> {
    match r {
        Ok(v) => Some(v@),
        Err(_) => None,
    }
}

/// The bytes an optional buffer holds.
pub open spec fn bytes_of(r: Option<Vec<u8>>) -> Option<Seq<u8>> {
    match r {
        Some(v) => Some(v@),
        None => None,
    }
}

/// The four bytes of a `u32`, most significant first.
pub open spec fn spec_u32_be(v: u32) -> Seq<u8> {
    seq![(v >> 24u32) as u8, (v >> 16u32) as u8, (v >> 8u32) as u8, v as u8]
}

/// The `u32` whose big-endian bytes start `b`.
pub open spec fn spec_u32_from_be(b: Seq<u8>) -> u32 {
    ((b[0] as u32) << 24u32) | ((b[1] as u32) << 16u32) | ((b[2] as u32) << 8u32) | (b[3] as u32)
}

/// Big-endian bytes give back the value they were made from.
pub proof fn lemma_u32_be_roundtrip(v: u32)
    ensures
        spec_u32_from_be(spec_u32_be(v)) == v,
{
    let b0 = (v >> 24u32) as u8;
    let b1 = (v >> 16u32) as u8;
    let b2 = (v >> 8u32) as u8;
    let b3 = v as u8;
    assert(((b0 as u32) << 24u32) | ((b1 as u32) << 16u32) | ((b2 as u32) << 8u32) | (b3 as u32) == v)
        by (bit_vector)
        requires
            b0 == (v >> 24u32) as u8,
            b1 == (v >> 16u32) as u8,
            b2 == (v >> 8u32) as u8,
            b3 == v as u8,
    ;
}

/// The record of compressed data `gz`: its length, the data, and zero
/// padding to a multiple of 4096 bytes.
pub open spec fn spec_frame(gz: Seq<u8>) -> Seq<u8> {
    spec_u32_be(gz.len() as u32) + gz + Seq::new(((4096 - (gz.len() + 4) % 4096) % 4096) as nat, |i: int| 0u8)
}

/// Frames compressed data as a record.
pub fn frame_record(gz: &[u8]) -> (r: Vec<u8>)
    requires
        gz@.len() + 4 + 4095 <= u32::MAX,
    ensures
        r@ == spec_frame(gz@),
        r@.len() % 4096 == 0,
{
    let len = gz.len() as u32;
    let mut out: Vec<u8> = Vec::new();
    out.push((len >> 24) as u8);
    out.push((len >> 16) as u8);
    out.push((len >> 8) as u8);
    out.push(len as u8);
    let mut i: usize = 0;
    while i < gz.len()
        invariant
            i <= gz@.len(),
            out@ == spec_u32_be(len) + gz@.take(i as int),
        decreases gz@.len() - i,
    {
        out.push(gz[i]);
        proof {
            assert(gz@.take(i + 1) =~= gz@.take(i as int).push(gz@[i as int]));
        }
        i = i + 1;
    }
    let pad = pad_size(len as u64 + 4);
    let mut k: u64 = 0;
    while k < pad
        invariant
            k <= pad,
            pad < 4096,
            out@ == spec_u32_be(len) + gz@ + Seq::new(k as nat, |j: int| 0u8),
        decreases pad - k,
    {
        out.push(0);
        proof {
            assert(Seq::new((k + 1) as nat, |j: int| 0u8) =~= Seq::new(k as nat, |j: int| 0u8).push(0u8));
        }
        k = k + 1;
    }
    proof {
        assert(gz@.take(gz@.len() as int) =~= gz@);
        assert(out@ =~= spec_frame(gz@));
        assert((4 + gz@.len() + (4096 - (gz@.len() + 4) % 4096) % 4096) % 4096 == 0) by (nonlinear_arith);
    }
    out
}

/// The compressed data of a record: the bytes after the length field, as
/// many as it gives. `None` when the record is shorter than that.
pub open spec fn spec_unframe(record: Seq<u8>) -> Option<Seq<u8>> {
    if record.len() < 4 {
        None
    } else {
        let len = spec_u32_from_be(record) as int;
        if record.len() < 4 + len {
            None
        } else {
            Some(record.subrange(4, 4 + len))
        }
    }
}

/// Takes the compressed data out of a record; fails with
/// [`Error::UnexpectedEnd`] when the record ends before the data does.
pub fn unframe_record(record: &[u8]) -> (r: Result<Vec<u8>, Error>)
    ensures
        match spec_unframe(record@) {
            Some(gz) => r matches Ok(v) && v@ == gz,
            None => r == Err::<Vec<u8>, Error>(Error::UnexpectedEnd),
        },
{
    if record.len() < 4 {
        return Err(Error::UnexpectedEnd);
    }
    let len = ((record[0] as u32) << 24) | ((record[1] as u32) << 16) | ((record[2] as u32) << 8) | (record[3] as u32);
    if record.len() - 4 < len as usize {
        return Err(Error::UnexpectedEnd);
    }
    let mut out: Vec<u8> = Vec::new();
    let mut i: usize = 0;
    while i < len as usize
        invariant
            i <= len,
            4 + len <= record.len(),
            out@ == record@.subrange(4, 4 + i),
        decreases len - i,
    {
        out.push(record[4 + i]);
        proof {
            assert(out@ =~= record@.subrange(4, 4 + i + 1));
        }
        i = i + 1;
    }
    Ok(out)
}

/// A record gives back the compressed data it was framed from.
pub proof fn law_unframe_frame(gz: Seq<u8>)
    requires
        gz.len() + 4 + 4095 <= u32::MAX,
    ensures
        spec_unframe(spec_frame(gz)) == Some(gz),
{
    let rec = spec_frame(gz);
    lemma_u32_be_roundtrip(gz.len() as u32);
    assert(rec.subrange(0, 4) =~= spec_u32_be(gz.len() as u32));
    assert(spec_u32_from_be(rec) == spec_u32_from_be(spec_u32_be(gz.len() as u32)));
    assert(rec.subrange(4, 4 + gz.len() as int) =~= gz);
}

/// The record of `data` compressed with gzip.
pub open spec fn spec_encode_record(data: Seq<u8>) -> Seq<u8> {
    spec_frame(gzip_fast(data))
}

/// Compresses `data` and frames it as a record. Fails with
/// [`Error::ChunkTooLarge`] exactly when the compressed data and its length
/// field take more than 8033 blocks.
pub fn encode_record(data: &[u8]) -> (r: Result<Vec<u8>, Error>)
    ensures
        gzip_fast(data@).len() + 4 <= 8033 * 4096 ==> (r matches Ok(v) && v@ == spec_encode_record(data@)
            && v@.len() <= 8033 * 4096),
        gzip_fast(data@).len() + 4 > 8033 * 4096 ==> r == Err::<Vec<u8>, Error>(Error::ChunkTooLarge),
{
    let gz = match gzip(data) {
        Ok(gz) => gz,
        Err(e) => {
            return Err(e);
        },
    };
    if gz.len() > 8033 * 4096 - 4 {
        return Err(Error::ChunkTooLarge);
    }
    let record = frame_record(gz.as_slice());
    proof {
        let n = gz@.len() + 4;
        assert(n + (4096 - n % 4096) % 4096 <= 8033 * 4096) by (nonlinear_arith)
            requires
                n <= 8033 * 4096,
        ;
    }
    Ok(record)
}

/// The data a record holds: its compressed bytes, decompressed.
pub open spec fn spec_decode_record(record: Seq<u8>) -> Option<Seq<u8>> {
    match spec_unframe(record) {
        Some(gz) => gunzip_of(gz),
        None => None,
    }
}

/// Reads the data out of a record. Fails with [`Error::UnexpectedEnd`]
/// when the record ends early and with [`Error::InvalidData`] when the
/// compressed bytes are not gzip.
pub fn decode_record(record: &[u8]) -> (r: Result<Vec<u8>, Error>)
    ensures
        spec_unframe(record@) is None ==> r == Err::<Vec<u8>, Error>(Error::UnexpectedEnd),
        spec_unframe(record@) is Some ==> match spec_decode_record(record@) {
            Some(d) => r matches Ok(v) && v@ == d,
            None => r == Err::<Vec<u8>, Error>(Error::InvalidData),
        },
        forall|x: Seq<u8>| record@ == spec_encode_record(x) && gzip_fast(x).len() + 4 + 4095 <= u32::MAX
            ==> (r matches Ok(v) && v@ == x),
{
    proof {
        assert forall|x: Seq<u8>| record@ == spec_encode_record(x) && gzip_fast(x).len() + 4 + 4095 <= u32::MAX
            implies spec_unframe(record@) == Some(gzip_fast(x)) by {
            law_unframe_frame(gzip_fast(x));
        }
    }
    let gz = match unframe_record(record) {
        Ok(gz) => gz,
        Err(e) => {
            return Err(e);
        },
    };
    proof {
        assert forall|x: Seq<u8>| record@ == spec_encode_record(x) && gzip_fast(x).len() + 4 + 4095 <= u32::MAX
            implies gz@ == gzip_fast(x) by {
            law_unframe_frame(gzip_fast(x));
        }
    }
    match gunzip(gz.as_slice()) {
        Some(data) => Ok(data),
        None => Err(Error::InvalidData),
    }
}

/// Decoding a record gives back the data it was encoded from.
pub proof fn law_record_roundtrip(data: Seq<u8>)
    requires
        gzip_fast(data).len() + 4 + 4095 <= u32::MAX,
    ensures
        spec_unframe(spec_encode_record(data)) == Some(gzip_fast(data)),
{
    law_unframe_frame(gzip_fast(data));
}

} // verus!
