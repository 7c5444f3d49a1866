use vstd::prelude::*;

use crate::common::paymentid::PaymentId;
use crate::common::paymentresult::PaymentResult;
use crate::common::satoshi::Satoshi;

verus! {

/// One in-flight conditional transfer. It occupies a slot of a channel
/// direction until its resolution time; equality is by full value.
#[derive(Debug, PartialEq, Eq, Hash)]
pub struct Htlc {
    pub id: PaymentId,
    pub amount: Satoshi,
    pub desired_result: PaymentResult,
}

impl Clone for Htlc {
    fn clone(&self) -> (r: Self)
        ensures
            r == *self,
    {
        Htlc { id: self.id.clone(), amount: self.amount, desired_result: self.desired_result }
    }
}

impl Htlc {
    pub fn new(id: PaymentId, amount: Satoshi, desired_result: PaymentResult) -> (r: Htlc)
        ensures
            r == (Htlc { id, amount, desired_result }),
    {
        Htlc { id, amount, desired_result }
    }

    pub fn get_id(&self) -> (r: &PaymentId)
        ensures
            *r == self.id,
    {
        &self.id
    }
}

} // verus!
