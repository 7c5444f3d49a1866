use vstd::prelude::*;

use crate::common::satoshi::mul_rate_spec;
use crate::common::satoshi::Satoshi;

verus! {

/// Which of a channel direction's two fee schedules is meant.
#[derive(Debug, Clone, Copy, PartialEq, Eq, Structural)]
pub enum FeeType {
    Upfront,
    Success,
}

/// A proportional fee rate: a numerator over a positive denominator.
#[derive(Debug, Clone, Copy, PartialEq, Eq, Structural)]
pub struct FeeRate(pub u64, pub u64);

impl FeeRate {
    pub open spec fn wf(&self) -> bool {
        self.1 > 0
    }
}

/// A fee schedule: a fixed base amount plus a proportional rate.
#[derive(Debug, Clone, Copy, PartialEq, Eq, Structural)]
pub struct Fee {
    pub base_fee: Satoshi,
    pub fee_rate: FeeRate,
}

/// What a fee schedule charges on an amount:
/// `floor(amount * rate) + base`.
pub open spec fn apply_spec(fee: Fee, amount: u64) -> int {
    mul_rate_spec(amount, fee.fee_rate) + fee.base_fee.0
}

impl Default for Fee {
    /// The zero fee: no base amount, rate of zero.
    fn default() -> (r: Fee)
        ensures
            r == Fee::default_spec(),
    {
        Fee { base_fee: Satoshi(0), fee_rate: FeeRate(0, 1) }
    }
}

impl Fee {
    /// The zero fee that `Default` returns.
    pub open spec fn default_spec() -> Fee {
        Fee { base_fee: Satoshi(0), fee_rate: FeeRate(0, 1) }
    }

    pub open spec fn wf(&self) -> bool {
        self.fee_rate.wf()
    }

    /// Charges this fee on an amount.
    pub fn apply(&self, amount: &Satoshi) -> (r: Satoshi)
        requires
            self.wf(),
            apply_spec(*self, amount.0) <= u64::MAX,
        ensures
            r.0 == apply_spec(*self, amount.0),
    {
        amount.mul(&self.fee_rate).add(&self.base_fee)
    }

    pub fn new(base_fee: Satoshi, fee_rate: FeeRate) -> (r: Fee)
        requires
            fee_rate.wf(),
        ensures
            r == (Fee { base_fee, fee_rate }),
    {
        Fee { base_fee, fee_rate }
    }
}

} // verus!
