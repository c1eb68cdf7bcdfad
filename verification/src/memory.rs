//! Memory in use and memory reserved, in bytes.
use vstd::prelude::*;

verus! {

/// Bytes in use and bytes reserved.
#[derive(Debug, Clone, Copy, PartialEq, Eq, Hash, Structural)]
pub struct MemoryUsage {
    pub used: usize,
    pub total: usize,
}

impl MemoryUsage {
    pub fn new(used: usize, total: usize) -> (r: Self)
        ensures
            r == (MemoryUsage { used, total }),
    {
        Self { used, total }
    }
}

impl core::ops::Add<MemoryUsage> for MemoryUsage {
    type Output = MemoryUsage;

    fn add(self, rhs: MemoryUsage) -> (r: MemoryUsage) {
        Self { used: self.used + rhs.used, total: self.total + rhs.total }
    }
}

impl vstd::std_specs::ops::AddSpecImpl<MemoryUsage> for MemoryUsage {
    open spec fn obeys_add_spec() -> bool {
        true
    }

    open spec fn add_req(self, rhs: MemoryUsage) -> bool {
        self.used + rhs.used <= usize::MAX && self.total + rhs.total <= usize::MAX
    }

    open spec fn add_spec(self, rhs: MemoryUsage) -> MemoryUsage {
        MemoryUsage { used: (self.used + rhs.used) as usize, total: (self.total + rhs.total) as usize }
    }
}

} // verus!
