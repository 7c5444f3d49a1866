use vstd::prelude::*;

use crate::common::duration::Duration;
use crate::common::nodeid::NodeId;
use crate::common::paymentresult::PaymentResult;
use crate::common::satoshi::Satoshi;

verus! {

/// One scheduled payment attempt: who pays whom, how much, how long the
/// recipient sits on it, the outcome the sender wants, and an optional
/// list of nodes the route must pass through.
#[derive(Debug, PartialEq, Eq)]
pub struct Event {
    pub sender: NodeId,
    pub receiver: NodeId,
    pub amount: Satoshi,
    pub processing_delay: Duration,
    pub desired_result: PaymentResult,
    pub must_route_via_nodes: Option<Vec<NodeId>>,
}

impl Event {
    /// An event between two distinct nodes: a payment can never be sent
    /// to its own sender.
    pub fn new(
        sender: NodeId,
        receiver: NodeId,
        amount: Satoshi,
        processing_delay: Duration,
        desired_result: PaymentResult,
        must_route_via_nodes: Option<Vec<NodeId>>,
    ) -> (r: Event)
        requires
            sender@ != receiver@,
        ensures
            r == (Event {
                sender,
                receiver,
                amount,
                processing_delay,
                desired_result,
                must_route_via_nodes,
            }),
    {
        Event { sender, receiver, amount, processing_delay, desired_result, must_route_via_nodes }
    }
}

} // verus!
