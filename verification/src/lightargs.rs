//! How a block filters and emits light: two 4-bit levels in one byte.
use vstd::prelude::*;

verus! {

/// The filter in the low four bits, the emission in the high four.
#[derive(Debug, Default, Clone, Copy, PartialEq, Eq, Hash, Structural)]
pub struct LightArgs(u8);

/// `v` clamped to 15.
pub open spec fn clamp15(v: u8) -> u8 {
    if v > 15 {
        15
    } else {
        v
    }
}

/// Packing two nibbles and replacing one of them.
proof fn lemma_nibbles(v: u8, f: u8, e: u8)
    requires
        f <= 15,
        e <= 15,
    ensures
        (f | (e << 4u8)) & 0xFu8 == f,
        (f | (e << 4u8)) >> 4u8 == e,
        ((v & 0xF0u8) | f) & 0xFu8 == f,
        ((v & 0xF0u8) | f) >> 4u8 == v >> 4u8,
        ((v & 0xFu8) | (e << 4u8)) & 0xFu8 == v & 0xFu8,
        ((v & 0xFu8) | (e << 4u8)) >> 4u8 == e,
{
    assert((f | (e << 4u8)) & 0xFu8 == f && (f | (e << 4u8)) >> 4u8 == e
        && ((v & 0xF0u8) | f) & 0xFu8 == f && ((v & 0xF0u8) | f) >> 4u8 == v >> 4u8
        && ((v & 0xFu8) | (e << 4u8)) & 0xFu8 == v & 0xFu8 && ((v & 0xFu8) | (e << 4u8)) >> 4u8 == e)
        by (bit_vector)
        requires
            f <= 15,
            e <= 15,
    ;
}

impl LightArgs {
    /// The filter level.
    pub open spec fn spec_filter(self) -> u8 {
        self.bits() & 0xFu8
    }

    /// The emission level.
    pub open spec fn spec_emit(self) -> u8 {
        self.bits() >> 4u8
    }

    /// The packed byte.
    pub closed spec fn bits(self) -> u8 {
        self.0
    }

    /// Light arguments with the given levels, each clamped to 15.
    pub fn new(filter: u8, emit: u8) -> (r: LightArgs)
        ensures
            r.spec_filter() == clamp15(filter),
            r.spec_emit() == clamp15(emit),
    {
        let filter = if filter < 15 { filter } else { 15 };
        let emit = if emit < 15 { emit } else { 15 };
        proof {
            lemma_nibbles(0, filter, emit);
        }
        LightArgs(filter | (emit << 4))
    }

    /// Sets the filter level, clamped to 15.
    pub fn set_filter(&mut self, filter: u8)
        ensures
            final(self).spec_filter() == clamp15(filter),
            final(self).spec_emit() == old(self).spec_emit(),
    {
        let filter = if filter < 15 { filter } else { 15 };
        proof {
            lemma_nibbles(self.0, filter, 0);
        }
        self.0 = (self.0 & 0xF0) | filter;
    }

    /// The filter level.
    pub fn filter(self) -> (r: u8)
        ensures
            r == self.spec_filter(),
    {
        self.0 & 0xF
    }

    /// Sets the emission level, clamped to 15.
    pub fn set_emit(&mut self, emit: u8)
        ensures
            final(self).spec_emit() == clamp15(emit),
            final(self).spec_filter() == old(self).spec_filter(),
    {
        let emit = if emit < 15 { emit } else { 15 };
        proof {
            lemma_nibbles(self.0, 0, emit);
        }
        self.0 = (self.0 & 0xF) | (emit << 4);
    }

    /// The emission level.
    pub fn emit(self) -> (r: u8)
        ensures
            r == self.spec_emit(),
    {
        self.0 >> 4
    }
}

} // verus!
