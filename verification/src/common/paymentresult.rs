use vstd::prelude::*;

verus! {

/// The outcome a payment's sender wants: honest senders want success,
/// jamming senders want failure.
#[allow(non_camel_case_types)]
#[derive(Debug, PartialEq, Eq, Hash, Clone, Copy, Structural)]
pub enum PaymentResult {
    SUCCESS,
    FAIL,
}

} // verus!
