//! Typed reads of one block of a section: each query names what it reads
//! and what it gives back.
use vstd::prelude::*;
use crate::section::Section;

verus! {

/// The block light level of a block.
#[derive(Debug, Default, Clone, Copy, PartialEq, Eq, PartialOrd, Ord, Hash, Structural)]
pub struct BlockLight(pub u8);

/// The sky light level of a block.
#[derive(Debug, Default, Clone, Copy, PartialEq, Eq, PartialOrd, Ord, Hash, Structural)]
pub struct SkyLight(pub u8);

/// Whether a block receives updates.
#[derive(Debug, Default, Clone, Copy, PartialEq, Eq, PartialOrd, Ord, Hash, Structural)]
pub struct Enabled(pub bool);

/// The data of a block.
#[derive(Debug, Default, Clone, Copy, PartialEq, Eq, PartialOrd, Ord, Hash, Structural)]
pub struct BlockData;

/// Queries that write to a section.
pub trait Mutate {}

/// A read of block `index` of a section whose block data has type `D`.
pub trait Query<'a, D: 'a> {
    type Output;

    /// What the query reads from `section` at `index`.
    spec fn spec_read(section: &'a Section<D>, index: int) -> Self::Output;

    /// What the query gives where no section is loaded.
    spec fn spec_default() -> Self::Output;

    fn read(section: &'a Section<D>, index: usize) -> (r: Self::Output)
        requires
            section.wf(),
            index < 4096,
        ensures
            r == Self::spec_read(section, index as int),
    ;

    fn default() -> (r: Self::Output)
        ensures
            r == Self::spec_default(),
    ;
}

/// A tuple of queries reads each of them, in order.
impl<'a, D: 'a, T0: Query<'a, D>, T1: Query<'a, D>> Query<'a, D> for (T0, T1) {
    type Output = (T0::Output, T1::Output);

    open spec fn spec_read(section: &'a Section<D>, index: int) -> (T0::Output, T1::Output) {
        (T0::spec_read(section, index), T1::spec_read(section, index))
    }

    open spec fn spec_default() -> (T0::Output, T1::Output) {
        (T0::spec_default(), T1::spec_default())
    }

    fn read(section: &'a Section<D>, index: usize) -> (r: (T0::Output, T1::Output)) {
        (T0::read(section, index), T1::read(section, index))
    }

    fn default() -> (r: (T0::Output, T1::Output)) {
        (T0::default(), T1::default())
    }
}

impl<'a, D: 'a, T0: Query<'a, D>, T1: Query<'a, D>, T2: Query<'a, D>> Query<'a, D> for (T0, T1, T2) {
    type Output = (T0::Output, T1::Output, T2::Output);

    open spec fn spec_read(section: &'a Section<D>, index: int) -> (T0::Output, T1::Output, T2::Output) {
        (T0::spec_read(section, index), T1::spec_read(section, index), T2::spec_read(section, index))
    }

    open spec fn spec_default() -> (T0::Output, T1::Output, T2::Output) {
        (T0::spec_default(), T1::spec_default(), T2::spec_default())
    }

    fn read(section: &'a Section<D>, index: usize) -> (r: (T0::Output, T1::Output, T2::Output)) {
        (T0::read(section, index), T1::read(section, index), T2::read(section, index))
    }

    fn default() -> (r: (T0::Output, T1::Output, T2::Output)) {
        (T0::default(), T1::default(), T2::default())
    }
}

impl<'a, D: 'a, T0: Query<'a, D>, T1: Query<'a, D>, T2: Query<'a, D>, T3: Query<'a, D>> Query<'a, D> for (T0, T1, T2, T3) {
    type Output = (T0::Output, T1::Output, T2::Output, T3::Output);

    open spec fn spec_read(section: &'a Section<D>, index: int) -> (T0::Output, T1::Output, T2::Output, T3::Output) {
        (T0::spec_read(section, index), T1::spec_read(section, index), T2::spec_read(section, index), T3::spec_read(section, index))
    }

    open spec fn spec_default() -> (T0::Output, T1::Output, T2::Output, T3::Output) {
        (T0::spec_default(), T1::spec_default(), T2::spec_default(), T3::spec_default())
    }

    fn read(section: &'a Section<D>, index: usize) -> (r: (T0::Output, T1::Output, T2::Output, T3::Output)) {
        (T0::read(section, index), T1::read(section, index), T2::read(section, index), T3::read(section, index))
    }

    fn default() -> (r: (T0::Output, T1::Output, T2::Output, T3::Output)) {
        (T0::default(), T1::default(), T2::default(), T3::default())
    }
}

impl<'a, D: 'a, T0: Query<'a, D>, T1: Query<'a, D>, T2: Query<'a, D>, T3: Query<'a, D>, T4: Query<'a, D>> Query<'a, D> for (T0, T1, T2, T3, T4) {
    type Output = (T0::Output, T1::Output, T2::Output, T3::Output, T4::Output);

    open spec fn spec_read(section: &'a Section<D>, index: int) -> (T0::Output, T1::Output, T2::Output, T3::Output, T4::Output) {
        (T0::spec_read(section, index), T1::spec_read(section, index), T2::spec_read(section, index), T3::spec_read(section, index), T4::spec_read(section, index))
    }

    open spec fn spec_default() -> (T0::Output, T1::Output, T2::Output, T3::Output, T4::Output) {
        (T0::spec_default(), T1::spec_default(), T2::spec_default(), T3::spec_default(), T4::spec_default())
    }

    fn read(section: &'a Section<D>, index: usize) -> (r: (T0::Output, T1::Output, T2::Output, T3::Output, T4::Output)) {
        (T0::read(section, index), T1::read(section, index), T2::read(section, index), T3::read(section, index), T4::read(section, index))
    }

    fn default() -> (r: (T0::Output, T1::Output, T2::Output, T3::Output, T4::Output)) {
        (T0::default(), T1::default(), T2::default(), T3::default(), T4::default())
    }
}

impl<'a, D: 'a, T0: Query<'a, D>, T1: Query<'a, D>, T2: Query<'a, D>, T3: Query<'a, D>, T4: Query<'a, D>, T5: Query<'a, D>> Query<'a, D> for (T0, T1, T2, T3, T4, T5) {
    type Output = (T0::Output, T1::Output, T2::Output, T3::Output, T4::Output, T5::Output);

    open spec fn spec_read(section: &'a Section<D>, index: int) -> (T0::Output, T1::Output, T2::Output, T3::Output, T4::Output, T5::Output) {
        (T0::spec_read(section, index), T1::spec_read(section, index), T2::spec_read(section, index), T3::spec_read(section, index), T4::spec_read(section, index), T5::spec_read(section, index))
    }

    open spec fn spec_default() -> (T0::Output, T1::Output, T2::Output, T3::Output, T4::Output, T5::Output) {
        (T0::spec_default(), T1::spec_default(), T2::spec_default(), T3::spec_default(), T4::spec_default(), T5::spec_default())
    }

    fn read(section: &'a Section<D>, index: usize) -> (r: (T0::Output, T1::Output, T2::Output, T3::Output, T4::Output, T5::Output)) {
        (T0::read(section, index), T1::read(section, index), T2::read(section, index), T3::read(section, index), T4::read(section, index), T5::read(section, index))
    }

    fn default() -> (r: (T0::Output, T1::Output, T2::Output, T3::Output, T4::Output, T5::Output)) {
        (T0::default(), T1::default(), T2::default(), T3::default(), T4::default(), T5::default())
    }
}

impl<'a, D: 'a, T0: Query<'a, D>, T1: Query<'a, D>, T2: Query<'a, D>, T3: Query<'a, D>, T4: Query<'a, D>, T5: Query<'a, D>, T6: Query<'a, D>> Query<'a, D> for (T0, T1, T2, T3, T4, T5, T6) {
    type Output = (T0::Output, T1::Output, T2::Output, T3::Output, T4::Output, T5::Output, T6::Output);

    open spec fn spec_read(section: &'a Section<D>, index: int) -> (T0::Output, T1::Output, T2::Output, T3::Output, T4::Output, T5::Output, T6::Output) {
        (T0::spec_read(section, index), T1::spec_read(section, index), T2::spec_read(section, index), T3::spec_read(section, index), T4::spec_read(section, index), T5::spec_read(section, index), T6::spec_read(section, index))
    }

    open spec fn spec_default() -> (T0::Output, T1::Output, T2::Output, T3::Output, T4::Output, T5::Output, T6::Output) {
        (T0::spec_default(), T1::spec_default(), T2::spec_default(), T3::spec_default(), T4::spec_default(), T5::spec_default(), T6::spec_default())
    }

    fn read(section: &'a Section<D>, index: usize) -> (r: (T0::Output, T1::Output, T2::Output, T3::Output, T4::Output, T5::Output, T6::Output)) {
        (T0::read(section, index), T1::read(section, index), T2::read(section, index), T3::read(section, index), T4::read(section, index), T5::read(section, index), T6::read(section, index))
    }

    fn default() -> (r: (T0::Output, T1::Output, T2::Output, T3::Output, T4::Output, T5::Output, T6::Output)) {
        (T0::default(), T1::default(), T2::default(), T3::default(), T4::default(), T5::default(), T6::default())
    }
}

impl<'a, D: 'a, T0: Query<'a, D>, T1: Query<'a, D>, T2: Query<'a, D>, T3: Query<'a, D>, T4: Query<'a, D>, T5: Query<'a, D>, T6: Query<'a, D>, T7: Query<'a, D>> Query<'a, D> for (T0, T1, T2, T3, T4, T5, T6, T7) {
    type Output = (T0::Output, T1::Output, T2::Output, T3::Output, T4::Output, T5::Output, T6::Output, T7::Output);

    open spec fn spec_read(section: &'a Section<D>, index: int) -> (T0::Output, T1::Output, T2::Output, T3::Output, T4::Output, T5::Output, T6::Output, T7::Output) {
        (T0::spec_read(section, index), T1::spec_read(section, index), T2::spec_read(section, index), T3::spec_read(section, index), T4::spec_read(section, index), T5::spec_read(section, index), T6::spec_read(section, index), T7::spec_read(section, index))
    }

    open spec fn spec_default() -> (T0::Output, T1::Output, T2::Output, T3::Output, T4::Output, T5::Output, T6::Output, T7::Output) {
        (T0::spec_default(), T1::spec_default(), T2::spec_default(), T3::spec_default(), T4::spec_default(), T5::spec_default(), T6::spec_default(), T7::spec_default())
    }

    fn read(section: &'a Section<D>, index: usize) -> (r: (T0::Output, T1::Output, T2::Output, T3::Output, T4::Output, T5::Output, T6::Output, T7::Output)) {
        (T0::read(section, index), T1::read(section, index), T2::read(section, index), T3::read(section, index), T4::read(section, index), T5::read(section, index), T6::read(section, index), T7::read(section, index))
    }

    fn default() -> (r: (T0::Output, T1::Output, T2::Output, T3::Output, T4::Output, T5::Output, T6::Output, T7::Output)) {
        (T0::default(), T1::default(), T2::default(), T3::default(), T4::default(), T5::default(), T6::default(), T7::default())
    }
}

impl<'a, D: 'a, T0: Query<'a, D>, T1: Query<'a, D>, T2: Query<'a, D>, T3: Query<'a, D>, T4: Query<'a, D>, T5: Query<'a, D>, T6: Query<'a, D>, T7: Query<'a, D>, T8: Query<'a, D>> Query<'a, D> for (T0, T1, T2, T3, T4, T5, T6, T7, T8) {
    type Output = (T0::Output, T1::Output, T2::Output, T3::Output, T4::Output, T5::Output, T6::Output, T7::Output, T8::Output);

    open spec fn spec_read(section: &'a Section<D>, index: int) -> (T0::Output, T1::Output, T2::Output, T3::Output, T4::Output, T5::Output, T6::Output, T7::Output, T8::Output) {
        (T0::spec_read(section, index), T1::spec_read(section, index), T2::spec_read(section, index), T3::spec_read(section, index), T4::spec_read(section, index), T5::spec_read(section, index), T6::spec_read(section, index), T7::spec_read(section, index), T8::spec_read(section, index))
    }

    open spec fn spec_default() -> (T0::Output, T1::Output, T2::Output, T3::Output, T4::Output, T5::Output, T6::Output, T7::Output, T8::Output) {
        (T0::spec_default(), T1::spec_default(), T2::spec_default(), T3::spec_default(), T4::spec_default(), T5::spec_default(), T6::spec_default(), T7::spec_default(), T8::spec_default())
    }

    fn read(section: &'a Section<D>, index: usize) -> (r: (T0::Output, T1::Output, T2::Output, T3::Output, T4::Output, T5::Output, T6::Output, T7::Output, T8::Output)) {
        (T0::read(section, index), T1::read(section, index), T2::read(section, index), T3::read(section, index), T4::read(section, index), T5::read(section, index), T6::read(section, index), T7::read(section, index), T8::read(section, index))
    }

    fn default() -> (r: (T0::Output, T1::Output, T2::Output, T3::Output, T4::Output, T5::Output, T6::Output, T7::Output, T8::Output)) {
        (T0::default(), T1::default(), T2::default(), T3::default(), T4::default(), T5::default(), T6::default(), T7::default(), T8::default())
    }
}

impl<'a, D: 'a, T0: Query<'a, D>, T1: Query<'a, D>, T2: Query<'a, D>, T3: Query<'a, D>, T4: Query<'a, D>, T5: Query<'a, D>, T6: Query<'a, D>, T7: Query<'a, D>, T8: Query<'a, D>, T9: Query<'a, D>> Query<'a, D> for (T0, T1, T2, T3, T4, T5, T6, T7, T8, T9) {
    type Output = (T0::Output, T1::Output, T2::Output, T3::Output, T4::Output, T5::Output, T6::Output, T7::Output, T8::Output, T9::Output);

    open spec fn spec_read(section: &'a Section<D>, index: int) -> (T0::Output, T1::Output, T2::Output, T3::Output, T4::Output, T5::Output, T6::Output, T7::Output, T8::Output, T9::Output) {
        (T0::spec_read(section, index), T1::spec_read(section, index), T2::spec_read(section, index), T3::spec_read(section, index), T4::spec_read(section, index), T5::spec_read(section, index), T6::spec_read(section, index), T7::spec_read(section, index), T8::spec_read(section, index), T9::spec_read(section, index))
    }

    open spec fn spec_default() -> (T0::Output, T1::Output, T2::Output, T3::Output, T4::Output, T5::Output, T6::Output, T7::Output, T8::Output, T9::Output) {
        (T0::spec_default(), T1::spec_default(), T2::spec_default(), T3::spec_default(), T4::spec_default(), T5::spec_default(), T6::spec_default(), T7::spec_default(), T8::spec_default(), T9::spec_default())
    }

    fn read(section: &'a Section<D>, index: usize) -> (r: (T0::Output, T1::Output, T2::Output, T3::Output, T4::Output, T5::Output, T6::Output, T7::Output, T8::Output, T9::Output)) {
        (T0::read(section, index), T1::read(section, index), T2::read(section, index), T3::read(section, index), T4::read(section, index), T5::read(section, index), T6::read(section, index), T7::read(section, index), T8::read(section, index), T9::read(section, index))
    }

    fn default() -> (r: (T0::Output, T1::Output, T2::Output, T3::Output, T4::Output, T5::Output, T6::Output, T7::Output, T8::Output, T9::Output)) {
        (T0::default(), T1::default(), T2::default(), T3::default(), T4::default(), T5::default(), T6::default(), T7::default(), T8::default(), T9::default())
    }
}

impl<'a, D: 'a, T0: Query<'a, D>, T1: Query<'a, D>, T2: Query<'a, D>, T3: Query<'a, D>, T4: Query<'a, D>, T5: Query<'a, D>, T6: Query<'a, D>, T7: Query<'a, D>, T8: Query<'a, D>, T9: Query<'a, D>, T10: Query<'a, D>> Query<'a, D> for (T0, T1, T2, T3, T4, T5, T6, T7, T8, T9, T10) {
    type Output = (T0::Output, T1::Output, T2::Output, T3::Output, T4::Output, T5::Output, T6::Output, T7::Output, T8::Output, T9::Output, T10::Output);

    open spec fn spec_read(section: &'a Section<D>, index: int) -> (T0::Output, T1::Output, T2::Output, T3::Output, T4::Output, T5::Output, T6::Output, T7::Output, T8::Output, T9::Output, T10::Output) {
        (T0::spec_read(section, index), T1::spec_read(section, index), T2::spec_read(section, index), T3::spec_read(section, index), T4::spec_read(section, index), T5::spec_read(section, index), T6::spec_read(section, index), T7::spec_read(section, index), T8::spec_read(section, index), T9::spec_read(section, index), T10::spec_read(section, index))
    }

    open spec fn spec_default() -> (T0::Output, T1::Output, T2::Output, T3::Output, T4::Output, T5::Output, T6::Output, T7::Output, T8::Output, T9::Output, T10::Output) {
        (T0::spec_default(), T1::spec_default(), T2::spec_default(), T3::spec_default(), T4::spec_default(), T5::spec_default(), T6::spec_default(), T7::spec_default(), T8::spec_default(), T9::spec_default(), T10::spec_default())
    }

    fn read(section: &'a Section<D>, index: usize) -> (r: (T0::Output, T1::Output, T2::Output, T3::Output, T4::Output, T5::Output, T6::Output, T7::Output, T8::Output, T9::Output, T10::Output)) {
        (T0::read(section, index), T1::read(section, index), T2::read(section, index), T3::read(section, index), T4::read(section, index), T5::read(section, index), T6::read(section, index), T7::read(section, index), T8::read(section, index), T9::read(section, index), T10::read(section, index))
    }

    fn default() -> (r: (T0::Output, T1::Output, T2::Output, T3::Output, T4::Output, T5::Output, T6::Output, T7::Output, T8::Output, T9::Output, T10::Output)) {
        (T0::default(), T1::default(), T2::default(), T3::default(), T4::default(), T5::default(), T6::default(), T7::default(), T8::default(), T9::default(), T10::default())
    }
}

impl<'a, D: 'a, T0: Query<'a, D>, T1: Query<'a, D>, T2: Query<'a, D>, T3: Query<'a, D>, T4: Query<'a, D>, T5: Query<'a, D>, T6: Query<'a, D>, T7: Query<'a, D>, T8: Query<'a, D>, T9: Query<'a, D>, T10: Query<'a, D>, T11: Query<'a, D>> Query<'a, D> for (T0, T1, T2, T3, T4, T5, T6, T7, T8, T9, T10, T11) {
    type Output = (T0::Output, T1::Output, T2::Output, T3::Output, T4::Output, T5::Output, T6::Output, T7::Output, T8::Output, T9::Output, T10::Output, T11::Output);

    open spec fn spec_read(section: &'a Section<D>, index: int) -> (T0::Output, T1::Output, T2::Output, T3::Output, T4::Output, T5::Output, T6::Output, T7::Output, T8::Output, T9::Output, T10::Output, T11::Output) {
        (T0::spec_read(section, index), T1::spec_read(section, index), T2::spec_read(section, index), T3::spec_read(section, index), T4::spec_read(section, index), T5::spec_read(section, index), T6::spec_read(section, index), T7::spec_read(section, index), T8::spec_read(section, index), T9::spec_read(section, index), T10::spec_read(section, index), T11::spec_read(section, index))
    }

    open spec fn spec_default() -> (T0::Output, T1::Output, T2::Output, T3::Output, T4::Output, T5::Output, T6::Output, T7::Output, T8::Output, T9::Output, T10::Output, T11::Output) {
        (T0::spec_default(), T1::spec_default(), T2::spec_default(), T3::spec_default(), T4::spec_default(), T5::spec_default(), T6::spec_default(), T7::spec_default(), T8::spec_default(), T9::spec_default(), T10::spec_default(), T11::spec_default())
    }

    fn read(section: &'a Section<D>, index: usize) -> (r: (T0::Output, T1::Output, T2::Output, T3::Output, T4::Output, T5::Output, T6::Output, T7::Output, T8::Output, T9::Output, T10::Output, T11::Output)) {
        (T0::read(section, index), T1::read(section, index), T2::read(section, index), T3::read(section, index), T4::read(section, index), T5::read(section, index), T6::read(section, index), T7::read(section, index), T8::read(section, index), T9::read(section, index), T10::read(section, index), T11::read(section, index))
    }

    fn default() -> (r: (T0::Output, T1::Output, T2::Output, T3::Output, T4::Output, T5::Output, T6::Output, T7::Output, T8::Output, T9::Output, T10::Output, T11::Output)) {
        (T0::default(), T1::default(), T2::default(), T3::default(), T4::default(), T5::default(), T6::default(), T7::default(), T8::default(), T9::default(), T10::default(), T11::default())
    }
}

impl<'a, D: 'a, T0: Query<'a, D>, T1: Query<'a, D>, T2: Query<'a, D>, T3: Query<'a, D>, T4: Query<'a, D>, T5: Query<'a, D>, T6: Query<'a, D>, T7: Query<'a, D>, T8: Query<'a, D>, T9: Query<'a, D>, T10: Query<'a, D>, T11: Query<'a, D>, T12: Query<'a, D>> Query<'a, D> for (T0, T1, T2, T3, T4, T5, T6, T7, T8, T9, T10, T11, T12) {
    type Output = (T0::Output, T1::Output, T2::Output, T3::Output, T4::Output, T5::Output, T6::Output, T7::Output, T8::Output, T9::Output, T10::Output, T11::Output, T12::Output);

    open spec fn spec_read(section: &'a Section<D>, index: int) -> (T0::Output, T1::Output, T2::Output, T3::Output, T4::Output, T5::Output, T6::Output, T7::Output, T8::Output, T9::Output, T10::Output, T11::Output, T12::Output) {
        (T0::spec_read(section, index), T1::spec_read(section, index), T2::spec_read(section, index), T3::spec_read(section, index), T4::spec_read(section, index), T5::spec_read(section, index), T6::spec_read(section, index), T7::spec_read(section, index), T8::spec_read(section, index), T9::spec_read(section, index), T10::spec_read(section, index), T11::spec_read(section, index), T12::spec_read(section, index))
    }

    open spec fn spec_default() -> (T0::Output, T1::Output, T2::Output, T3::Output, T4::Output, T5::Output, T6::Output, T7::Output, T8::Output, T9::Output, T10::Output, T11::Output, T12::Output) {
        (T0::spec_default(), T1::spec_default(), T2::spec_default(), T3::spec_default(), T4::spec_default(), T5::spec_default(), T6::spec_default(), T7::spec_default(), T8::spec_default(), T9::spec_default(), T10::spec_default(), T11::spec_default(), T12::spec_default())
    }

    fn read(section: &'a Section<D>, index: usize) -> (r: (T0::Output, T1::Output, T2::Output, T3::Output, T4::Output, T5::Output, T6::Output, T7::Output, T8::Output, T9::Output, T10::Output, T11::Output, T12::Output)) {
        (T0::read(section, index), T1::read(section, index), T2::read(section, index), T3::read(section, index), T4::read(section, index), T5::read(section, index), T6::read(section, index), T7::read(section, index), T8::read(section, index), T9::read(section, index), T10::read(section, index), T11::read(section, index), T12::read(section, index))
    }

    fn default() -> (r: (T0::Output, T1::Output, T2::Output, T3::Output, T4::Output, T5::Output, T6::Output, T7::Output, T8::Output, T9::Output, T10::Output, T11::Output, T12::Output)) {
        (T0::default(), T1::default(), T2::default(), T3::default(), T4::default(), T5::default(), T6::default(), T7::default(), T8::default(), T9::default(), T10::default(), T11::default(), T12::default())
    }
}

impl<'a, D: 'a, T0: Query<'a, D>, T1: Query<'a, D>, T2: Query<'a, D>, T3: Query<'a, D>, T4: Query<'a, D>, T5: Query<'a, D>, T6: Query<'a, D>, T7: Query<'a, D>, T8: Query<'a, D>, T9: Query<'a, D>, T10: Query<'a, D>, T11: Query<'a, D>, T12: Query<'a, D>, T13: Query<'a, D>> Query<'a, D> for (T0, T1, T2, T3, T4, T5, T6, T7, T8, T9, T10, T11, T12, T13) {
    type Output = (T0::Output, T1::Output, T2::Output, T3::Output, T4::Output, T5::Output, T6::Output, T7::Output, T8::Output, T9::Output, T10::Output, T11::Output, T12::Output, T13::Output);

    open spec fn spec_read(section: &'a Section<D>, index: int) -> (T0::Output, T1::Output, T2::Output, T3::Output, T4::Output, T5::Output, T6::Output, T7::Output, T8::Output, T9::Output, T10::Output, T11::Output, T12::Output, T13::Output) {
        (T0::spec_read(section, index), T1::spec_read(section, index), T2::spec_read(section, index), T3::spec_read(section, index), T4::spec_read(section, index), T5::spec_read(section, index), T6::spec_read(section, index), T7::spec_read(section, index), T8::spec_read(section, index), T9::spec_read(section, index), T10::spec_read(section, index), T11::spec_read(section, index), T12::spec_read(section, index), T13::spec_read(section, index))
    }

    open spec fn spec_default() -> (T0::Output, T1::Output, T2::Output, T3::Output, T4::Output, T5::Output, T6::Output, T7::Output, T8::Output, T9::Output, T10::Output, T11::Output, T12::Output, T13::Output) {
        (T0::spec_default(), T1::spec_default(), T2::spec_default(), T3::spec_default(), T4::spec_default(), T5::spec_default(), T6::spec_default(), T7::spec_default(), T8::spec_default(), T9::spec_default(), T10::spec_default(), T11::spec_default(), T12::spec_default(), T13::spec_default())
    }

    fn read(section: &'a Section<D>, index: usize) -> (r: (T0::Output, T1::Output, T2::Output, T3::Output, T4::Output, T5::Output, T6::Output, T7::Output, T8::Output, T9::Output, T10::Output, T11::Output, T12::Output, T13::Output)) {
        (T0::read(section, index), T1::read(section, index), T2::read(section, index), T3::read(section, index), T4::read(section, index), T5::read(section, index), T6::read(section, index), T7::read(section, index), T8::read(section, index), T9::read(section, index), T10::read(section, index), T11::read(section, index), T12::read(section, index), T13::read(section, index))
    }

    fn default() -> (r: (T0::Output, T1::Output, T2::Output, T3::Output, T4::Output, T5::Output, T6::Output, T7::Output, T8::Output, T9::Output, T10::Output, T11::Output, T12::Output, T13::Output)) {
        (T0::default(), T1::default(), T2::default(), T3::default(), T4::default(), T5::default(), T6::default(), T7::default(), T8::default(), T9::default(), T10::default(), T11::default(), T12::default(), T13::default())
    }
}

impl<'a, D: 'a, T0: Query<'a, D>, T1: Query<'a, D>, T2: Query<'a, D>, T3: Query<'a, D>, T4: Query<'a, D>, T5: Query<'a, D>, T6: Query<'a, D>, T7: Query<'a, D>, T8: Query<'a, D>, T9: Query<'a, D>, T10: Query<'a, D>, T11: Query<'a, D>, T12: Query<'a, D>, T13: Query<'a, D>, T14: Query<'a, D>> Query<'a, D> for (T0, T1, T2, T3, T4, T5, T6, T7, T8, T9, T10, T11, T12, T13, T14) {
    type Output = (T0::Output, T1::Output, T2::Output, T3::Output, T4::Output, T5::Output, T6::Output, T7::Output, T8::Output, T9::Output, T10::Output, T11::Output, T12::Output, T13::Output, T14::Output);

    open spec fn spec_read(section: &'a Section<D>, index: int) -> (T0::Output, T1::Output, T2::Output, T3::Output, T4::Output, T5::Output, T6::Output, T7::Output, T8::Output, T9::Output, T10::Output, T11::Output, T12::Output, T13::Output, T14::Output) {
        (T0::spec_read(section, index), T1::spec_read(section, index), T2::spec_read(section, index), T3::spec_read(section, index), T4::spec_read(section, index), T5::spec_read(section, index), T6::spec_read(section, index), T7::spec_read(section, index), T8::spec_read(section, index), T9::spec_read(section, index), T10::spec_read(section, index), T11::spec_read(section, index), T12::spec_read(section, index), T13::spec_read(section, index), T14::spec_read(section, index))
    }

    open spec fn spec_default() -> (T0::Output, T1::Output, T2::Output, T3::Output, T4::Output, T5::Output, T6::Output, T7::Output, T8::Output, T9::Output, T10::Output, T11::Output, T12::Output, T13::Output, T14::Output) {
        (T0::spec_default(), T1::spec_default(), T2::spec_default(), T3::spec_default(), T4::spec_default(), T5::spec_default(), T6::spec_default(), T7::spec_default(), T8::spec_default(), T9::spec_default(), T10::spec_default(), T11::spec_default(), T12::spec_default(), T13::spec_default(), T14::spec_default())
    }

    fn read(section: &'a Section<D>, index: usize) -> (r: (T0::Output, T1::Output, T2::Output, T3::Output, T4::Output, T5::Output, T6::Output, T7::Output, T8::Output, T9::Output, T10::Output, T11::Output, T12::Output, T13::Output, T14::Output)) {
        (T0::read(section, index), T1::read(section, index), T2::read(section, index), T3::read(section, index), T4::read(section, index), T5::read(section, index), T6::read(section, index), T7::read(section, index), T8::read(section, index), T9::read(section, index), T10::read(section, index), T11::read(section, index), T12::read(section, index), T13::read(section, index), T14::read(section, index))
    }

    fn default() -> (r: (T0::Output, T1::Output, T2::Output, T3::Output, T4::Output, T5::Output, T6::Output, T7::Output, T8::Output, T9::Output, T10::Output, T11::Output, T12::Output, T13::Output, T14::Output)) {
        (T0::default(), T1::default(), T2::default(), T3::default(), T4::default(), T5::default(), T6::default(), T7::default(), T8::default(), T9::default(), T10::default(), T11::default(), T12::default(), T13::default(), T14::default())
    }
}

impl<'a, D: 'a, T0: Query<'a, D>, T1: Query<'a, D>, T2: Query<'a, D>, T3: Query<'a, D>, T4: Query<'a, D>, T5: Query<'a, D>, T6: Query<'a, D>, T7: Query<'a, D>, T8: Query<'a, D>, T9: Query<'a, D>, T10: Query<'a, D>, T11: Query<'a, D>, T12: Query<'a, D>, T13: Query<'a, D>, T14: Query<'a, D>, T15: Query<'a, D>> Query<'a, D> for (T0, T1, T2, T3, T4, T5, T6, T7, T8, T9, T10, T11, T12, T13, T14, T15) {
    type Output = (T0::Output, T1::Output, T2::Output, T3::Output, T4::Output, T5::Output, T6::Output, T7::Output, T8::Output, T9::Output, T10::Output, T11::Output, T12::Output, T13::Output, T14::Output, T15::Output);

    open spec fn spec_read(section: &'a Section<D>, index: int) -> (T0::Output, T1::Output, T2::Output, T3::Output, T4::Output, T5::Output, T6::Output, T7::Output, T8::Output, T9::Output, T10::Output, T11::Output, T12::Output, T13::Output, T14::Output, T15::Output) {
        (T0::spec_read(section, index), T1::spec_read(section, index), T2::spec_read(section, index), T3::spec_read(section, index), T4::spec_read(section, index), T5::spec_read(section, index), T6::spec_read(section, index), T7::spec_read(section, index), T8::spec_read(section, index), T9::spec_read(section, index), T10::spec_read(section, index), T11::spec_read(section, index), T12::spec_read(section, index), T13::spec_read(section, index), T14::spec_read(section, index), T15::spec_read(section, index))
    }

    open spec fn spec_default() -> (T0::Output, T1::Output, T2::Output, T3::Output, T4::Output, T5::Output, T6::Output, T7::Output, T8::Output, T9::Output, T10::Output, T11::Output, T12::Output, T13::Output, T14::Output, T15::Output) {
        (T0::spec_default(), T1::spec_default(), T2::spec_default(), T3::spec_default(), T4::spec_default(), T5::spec_default(), T6::spec_default(), T7::spec_default(), T8::spec_default(), T9::spec_default(), T10::spec_default(), T11::spec_default(), T12::spec_default(), T13::spec_default(), T14::spec_default(), T15::spec_default())
    }

    fn read(section: &'a Section<D>, index: usize) -> (r: (T0::Output, T1::Output, T2::Output, T3::Output, T4::Output, T5::Output, T6::Output, T7::Output, T8::Output, T9::Output, T10::Output, T11::Output, T12::Output, T13::Output, T14::Output, T15::Output)) {
        (T0::read(section, index), T1::read(section, index), T2::read(section, index), T3::read(section, index), T4::read(section, index), T5::read(section, index), T6::read(section, index), T7::read(section, index), T8::read(section, index), T9::read(section, index), T10::read(section, index), T11::read(section, index), T12::read(section, index), T13::read(section, index), T14::read(section, index), T15::read(section, index))
    }

    fn default() -> (r: (T0::Output, T1::Output, T2::Output, T3::Output, T4::Output, T5::Output, T6::Output, T7::Output, T8::Output, T9::Output, T10::Output, T11::Output, T12::Output, T13::Output, T14::Output, T15::Output)) {
        (T0::default(), T1::default(), T2::default(), T3::default(), T4::default(), T5::default(), T6::default(), T7::default(), T8::default(), T9::default(), T10::default(), T11::default(), T12::default(), T13::default(), T14::default(), T15::default())
    }
}

} // verus!
