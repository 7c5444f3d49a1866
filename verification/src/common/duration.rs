use vstd::prelude::*;

verus! {

/// A relative span of simulated time.
#[derive(Debug, PartialEq, Eq, PartialOrd, Ord, Clone, Copy, Hash, Structural)]
pub struct Duration(pub u64);

} // verus!
