pub mod channelindirection;
pub mod direction;
pub mod htlc;

use vstd::prelude::*;

use std::collections::HashMap;

use crate::common::satoshi::Satoshi;
use channelindirection::ChannelInDirection;
use direction::Direction;

verus! {

/// A channel between two nodes: its total capacity, its identifier, and
/// the state of each direction; a disabled direction holds `None`.
pub struct Channel {
    pub capacity: Satoshi,
    pub cid: String,
    pub channel_in_direction: HashMap<Direction, Option<ChannelInDirection>>,
}

} // verus!
