use vstd::prelude::*;

verus! {

// Protocol parameters.
/// The largest number of in-flight slots a channel direction may have.
pub const MAX_NUM_SLOTS: usize = 483;

pub const DUST_LIMIT: u16 = 354;

pub const MAX_ROUTE_LENGTH: u16 = 20;

// Fee parameters: the default success fee is 1 unit base plus a
// proportional rate of 5 per 1,000,000.
pub const SUCCESS_BASE_FEE: u64 = 1;

pub const SUCCESS_FEE_RATE_NUM: u64 = 5;

pub const SUCCESS_FEE_RATE_DEN: u64 = 1000000;

} // verus!
