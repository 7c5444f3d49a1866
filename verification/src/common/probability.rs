use vstd::prelude::*;

verus! {

/// A probability expressed in parts per million. A value of 1,000,000
/// stands for certainty; the bounds are not enforced, callers must not
/// misuse the configuration.
#[derive(Debug, PartialEq, Eq, Hash, Clone, Copy, Structural)]
pub struct Probability(pub u64);

} // verus!
