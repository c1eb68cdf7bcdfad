//! UNIX timestamps of the chunks of a region.
use vstd::prelude::*;

verus! {

/// Seconds since the UNIX epoch, UTC.
#[derive(Debug, Default, Clone, Copy, PartialEq, Eq, PartialOrd, Ord, Hash)]
pub struct Timestamp(i64);

impl Timestamp {
    /// The offset of the timestamp table in a region file (it comes first).
    pub const OFFSET: u64 = 0;

    /// The number of seconds the timestamp holds.
    pub closed spec fn seconds(self) -> i64 {
        self.0
    }

    pub fn new(timestamp: i64) -> (r: Self)
        ensures
            r.seconds() == timestamp,
    {
        Self(timestamp)
    }

    /// The UNIX UTC timestamp.
    pub fn timestamp(self) -> (r: i64)
        ensures
            r == self.seconds(),
    {
        self.0
    }

    /// The current time, read from the system clock through
    /// `chrono::Utc::now` and truncated to whole seconds by
    /// `DateTime::timestamp`. Nothing is stated of the value: it depends on
    /// the clock.
    #[verifier::external_body]
    pub fn utc_now() -> (r: Self) {
        Self(chrono::Utc::now().timestamp())
    }
}

} // verus!
