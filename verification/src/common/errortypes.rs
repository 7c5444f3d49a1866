use vstd::prelude::*;

verus! {

/// The kinds of failure a channel direction can report.
#[derive(Debug, PartialEq, Eq, Hash, Clone, Copy, Structural)]
pub enum ErrorType {
    LowBalance,
    NoSlots,
    LowFee,
    FailedDeliberately,
}

} // verus!
