use vstd::prelude::*;

use crate::common::duration::Duration;

verus! {

/// An absolute instant of simulated time; totally ordered by its value.
#[derive(Debug, PartialEq, Eq, PartialOrd, Ord, Clone, Copy, Hash, Structural)]
pub struct Timestamp(pub u64);

impl Timestamp {
    /// Shifts this instant forward by a duration.
    pub fn add(&self, duration: &Duration) -> (r: Timestamp)
        requires
            self.0 + duration.0 <= u64::MAX,
        ensures
            r.0 == self.0 + duration.0,
    {
        Timestamp(self.0 + duration.0)
    }
}

} // verus!
