//! A flag that records that something changed since it was last saved.
use vstd::prelude::*;

verus! {

#[derive(Debug, Default, Clone, Copy, PartialEq, Eq, PartialOrd, Ord, Hash, Structural)]
pub struct Dirty(bool);

impl Dirty {
    /// The flag is set.
    pub closed spec fn is_dirty(self) -> bool {
        self.0
    }

    /// A clean flag.
    pub fn new() -> (r: Self)
        ensures
            !r.is_dirty(),
    {
        Self(false)
    }

    /// Sets the flag; returns `true` when it was clean and `false` when it
    /// was already set.
    pub fn mark(&mut self) -> (r: bool)
        ensures
            final(self).is_dirty(),
            r == !old(self).is_dirty(),
    {
        let was_dirty = self.0;
        self.0 = true;
        !was_dirty
    }

    /// Clears the flag.
    pub fn mark_clean(&mut self)
        ensures
            !final(self).is_dirty(),
    {
        self.0 = false;
    }

    /// The flag is set.
    pub fn dirty(self) -> (r: bool)
        ensures
            r == self.is_dirty(),
    {
        self.0
    }
}

} // verus!
