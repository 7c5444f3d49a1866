use vstd::prelude::*;

use crate::common::fee::FeeRate;

verus! {

/// A non-negative monetary amount in the smallest unit. Arithmetic never
/// produces a negative value: subtraction demands that the minuend is at
/// least the subtrahend.
#[derive(Debug, PartialEq, Eq, Hash, Clone, Copy, PartialOrd, Ord, Structural)]
pub struct Satoshi(pub u64);

/// `floor(amount * rate)`: the amount scaled by the rate's numerator and
/// divided by its denominator, rounded toward zero.
pub open spec fn mul_rate_spec(amount: u64, rate: FeeRate) -> int {
    (amount * rate.0) / (rate.1 as int)
}

impl Satoshi {
    pub fn eq(&self, other_amount: &Satoshi) -> (r: bool)
        ensures
            r == (self.0 == other_amount.0),
    {
        self.0 == other_amount.0
    }

    pub fn gt(&self, other_amount: &Satoshi) -> (r: bool)
        ensures
            r == (self.0 > other_amount.0),
    {
        self.0 > other_amount.0
    }

    pub fn lt(&self, other_amount: &Satoshi) -> (r: bool)
        ensures
            r == (self.0 < other_amount.0),
    {
        other_amount.gt(self)
    }

    pub fn ge(&self, other_amount: &Satoshi) -> (r: bool)
        ensures
            r == (self.0 >= other_amount.0),
    {
        self.gt(other_amount) || self.eq(other_amount)
    }

    pub fn le(&self, other_amount: &Satoshi) -> (r: bool)
        ensures
            r == (self.0 <= other_amount.0),
    {
        self.lt(other_amount) || self.eq(other_amount)
    }

    pub fn add(&self, other_amount: &Satoshi) -> (r: Satoshi)
        requires
            self.0 + other_amount.0 <= u64::MAX,
        ensures
            r.0 == self.0 + other_amount.0,
    {
        Satoshi(self.0 + other_amount.0)
    }

    pub fn sub(&self, other_amount: &Satoshi) -> (r: Satoshi)
        requires
            other_amount.0 <= self.0,
        ensures
            r.0 == self.0 - other_amount.0,
    {
        Satoshi(self.0 - other_amount.0)
    }

    /// Multiplies the amount by a proportional rate, rounding down.
    pub fn mul(&self, rate: &FeeRate) -> (r: Satoshi)
        requires
            rate.wf(),
            mul_rate_spec(self.0, *rate) <= u64::MAX,
        ensures
            r.0 == mul_rate_spec(self.0, *rate),
    {
        proof {
            assert((self.0 as int) * (rate.0 as int) <= u128::MAX as int) by (nonlinear_arith)
                requires
                    self.0 <= u64::MAX,
                    rate.0 <= u64::MAX,
            ;
        }
        let scaled: u128 = (self.0 as u128) * (rate.0 as u128);
        let quotient: u128 = scaled / (rate.1 as u128);
        Satoshi(quotient as u64)
    }
}

} // verus!
