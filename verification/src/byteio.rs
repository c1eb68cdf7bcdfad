//! Reading values from a byte buffer and appending them to one.
use vstd::prelude::*;
use crate::error::Error;

verus! {

/// The two bytes of a `u16`, most significant first.
pub open spec fn spec_u16_be(v: u16) -> Seq<u8> {
    seq![(v >> 8u16) as u8, (v & 0xFFu16) as u8]
}

/// The `u16` whose big-endian bytes are `hi, lo`.
pub open spec fn spec_u16_from_be(hi: u8, lo: u8) -> u16 {
    ((hi as u16) << 8u16) | (lo as u16)
}

/// Big-endian bytes give back the value they were made from, and the other
/// way round.
pub proof fn lemma_u16_be_roundtrip(v: u16, hi: u8, lo: u8)
    ensures
        spec_u16_from_be((v >> 8u16) as u8, (v & 0xFFu16) as u8) == v,
        (spec_u16_from_be(hi, lo) >> 8u16) as u8 == hi,
        (spec_u16_from_be(hi, lo) & 0xFFu16) as u8 == lo,
{
    assert(((((v >> 8u16) as u8) as u16) << 8u16) | (((v & 0xFFu16) as u8) as u16) == v
        && ((((((hi as u16) << 8u16) | (lo as u16)) >> 8u16) as u8) == hi)
        && (((((hi as u16) << 8u16) | (lo as u16)) & 0xFFu16) as u8) == lo) by (bit_vector);
}

/// Appends `v` in big-endian byte order and returns the number of bytes
/// written.
pub fn write_u16_be(out: &mut Vec<u8>, v: u16) -> (r: u64)
    ensures
        final(out)@ == old(out)@ + spec_u16_be(v),
        r == 2,
{
    out.push((v >> 8) as u8);
    out.push((v & 0xFF) as u8);
    assert(final(out)@ =~= old(out)@ + spec_u16_be(v));
    2
}

/// Byte `i` after the first `n` is byte `n + i`.
pub proof fn lemma_skip_at(s: Seq<u8>, n: int, i: int)
    requires
        0 <= n,
        0 <= i,
        n + i < s.len(),
    ensures
        s.skip(n)[i] == s[n + i],
{
}

/// A cursor over a byte buffer.
pub struct ByteReader {
    data: Vec<u8>,
    pos: usize,
}

impl ByteReader {
    /// All the bytes of the buffer.
    pub closed spec fn bytes(&self) -> Seq<u8> {
        self.data@
    }

    /// How many bytes were consumed.
    pub closed spec fn position(&self) -> int {
        self.pos as int
    }

    /// The bytes not consumed yet.
    pub open spec fn remaining(&self) -> Seq<u8> {
        self.bytes().skip(self.position())
    }

    /// The position lies within the buffer.
    pub open spec fn wf(&self) -> bool {
        0 <= self.position() <= self.bytes().len()
    }

    /// A cursor at the start of `data`.
    pub fn new(data: Vec<u8>) -> (r: Self)
        ensures
            r.wf(),
            r.bytes() == data@,
            r.position() == 0,
    {
        Self { data, pos: 0 }
    }

    /// The number of bytes consumed so far.
    pub fn pos(&self) -> (r: usize)
        ensures
            r == self.position(),
    {
        self.pos
    }

    /// The number of bytes not consumed yet.
    pub fn bytes_left(&self) -> (r: usize)
        requires
            self.wf(),
        ensures
            r == self.remaining().len(),
    {
        self.data.len() - self.pos
    }

    /// Consumes the next `n` bytes; when fewer remain, consumes nothing and
    /// fails with [`Error::UnexpectedEnd`].
    pub fn read_exact(&mut self, n: usize) -> (r: Result<Vec<u8>, Error>)
        requires
            old(self).wf(),
        ensures
            final(self).wf(),
            final(self).bytes() == old(self).bytes(),
            n <= old(self).remaining().len() ==> (r matches Ok(v)
                && v@ == old(self).remaining().take(n as int)
                && final(self).position() == old(self).position() + n),
            n > old(self).remaining().len() ==> r == Err::<Vec<u8>, Error>(Error::UnexpectedEnd)
                && final(self).position() == old(self).position(),
    {
        if n > self.data.len() - self.pos {
            return Err(Error::UnexpectedEnd);
        }
        let mut v: Vec<u8> = Vec::new();
        let mut i: usize = 0;
        while i < n
            invariant
                i <= n,
                self.pos + n <= self.data.len(),
                v@ == self.data@.subrange(self.pos as int, self.pos + i),
            decreases n - i,
        {
            v.push(self.data[self.pos + i]);
            proof {
                assert(v@ =~= self.data@.subrange(self.pos as int, self.pos + i + 1));
            }
            i = i + 1;
        }
        self.pos = self.pos + n;
        proof {
            assert(v@ =~= old(self).remaining().take(n as int));
        }
        Ok(v)
    }

    /// Consumes one byte.
    pub fn read_u8(&mut self) -> (r: Result<u8, Error>)
        requires
            old(self).wf(),
        ensures
            final(self).wf(),
            final(self).bytes() == old(self).bytes(),
            old(self).remaining().len() >= 1 ==> r == Ok::<u8, Error>(old(self).remaining()[0])
                && final(self).position() == old(self).position() + 1,
            old(self).remaining().len() == 0 ==> r == Err::<u8, Error>(Error::UnexpectedEnd)
                && final(self).position() == old(self).position(),
    {
        if self.pos >= self.data.len() {
            return Err(Error::UnexpectedEnd);
        }
        let b = self.data[self.pos];
        self.pos = self.pos + 1;
        Ok(b)
    }

    /// Consumes one byte as a flag: any byte but zero is `true`.
    pub fn read_bool(&mut self) -> (r: Result<bool, Error>)
        requires
            old(self).wf(),
        ensures
            final(self).wf(),
            final(self).bytes() == old(self).bytes(),
            old(self).remaining().len() >= 1 ==> r == Ok::<bool, Error>(old(self).remaining()[0] != 0)
                && final(self).position() == old(self).position() + 1,
            old(self).remaining().len() == 0 ==> r == Err::<bool, Error>(Error::UnexpectedEnd)
                && final(self).position() == old(self).position(),
    {
        match self.read_u8() {
            Ok(b) => Ok(b != 0),
            Err(e) => Err(e),
        }
    }

    /// Consumes two bytes as a big-endian `u16`; when fewer remain,
    /// consumes nothing.
    pub fn read_u16_be(&mut self) -> (r: Result<u16, Error>)
        requires
            old(self).wf(),
        ensures
            final(self).wf(),
            final(self).bytes() == old(self).bytes(),
            old(self).remaining().len() >= 2 ==> r == Ok::<u16, Error>(
                spec_u16_from_be(old(self).remaining()[0], old(self).remaining()[1]),
            ) && final(self).position() == old(self).position() + 2,
            old(self).remaining().len() < 2 ==> r == Err::<u16, Error>(Error::UnexpectedEnd)
                && final(self).position() == old(self).position(),
    {
        if self.data.len() - self.pos < 2 {
            return Err(Error::UnexpectedEnd);
        }
        let hi = self.data[self.pos];
        let lo = self.data[self.pos + 1];
        self.pos = self.pos + 2;
        Ok(((hi as u16) << 8) | (lo as u16))
    }
}

} // verus!
