use vstd::prelude::*;

use crate::common::duration::Duration;
use crate::common::fee::apply_spec;
use crate::common::fee::Fee;
use crate::common::nodeid::NodeId;
use crate::common::params::MAX_ROUTE_LENGTH;
use crate::common::paymentresult::PaymentResult;
use crate::common::satoshi::Satoshi;

verus! {

/// One hop of a payment route. A route is a linear chain built from the
/// destination backward: each hop owns its single downstream successor,
/// and fees stack hop over hop toward the origin.
#[derive(Debug)]
pub struct Payment {
    pub upfront_fee_satoshi: Satoshi,
    pub success_fee_satoshi: Satoshi,
    pub desired_result: PaymentResult,
    pub processing_delay: Duration,
    pub body: Satoshi,
    pub downstream_node: Option<NodeId>,
    pub downstream_payment: Option<Box<Payment>>,
}

/// The number of hops in a payment chain.
pub open spec fn route_len(p: Payment) -> nat
    decreases p,
{
    match p.downstream_payment {
        Some(d) => 1 + route_len(*d),
        None => 1,
    }
}

/// The amount a relay hop must itself carry and forward: the downstream
/// hop's body plus the success fee owed to the hops behind it.
pub open spec fn forwarded_amount(d: Payment) -> int {
    d.body.0 + d.success_fee_satoshi.0
}

/// The derived fields of a relay hop, from the two fee schedules and the
/// downstream hop: both fees are charged on the forwarded amount and
/// stack on the downstream totals; outcome and delay are carried over.
pub open spec fn relay_fields(r: Payment, upfront_fee: Fee, success_fee: Fee, d: Payment) -> bool {
    &&& r.body.0 == forwarded_amount(d)
    &&& r.upfront_fee_satoshi.0 == apply_spec(upfront_fee, forwarded_amount(d) as u64)
        + d.upfront_fee_satoshi.0
    &&& r.success_fee_satoshi.0 == apply_spec(success_fee, forwarded_amount(d) as u64)
        + d.success_fee_satoshi.0
    &&& r.desired_result == d.desired_result
    &&& r.processing_delay == d.processing_delay
}

impl Payment {
    /// Builds one hop. Exactly one of two shapes is allowed: a terminal
    /// hop gets outcome, delay and body and no downstream hop; a relay
    /// hop gets a downstream node and payment and derives the rest.
    pub fn new(
        upfront_fee: Fee,
        success_fee: Fee,
        desired_result: Option<PaymentResult>,
        processing_delay: Option<Duration>,
        body: Option<Satoshi>,
        downstream_node: Option<NodeId>,
        downstream_payment: Option<Box<Payment>>,
    ) -> (r: Payment)
        requires
            upfront_fee.wf(),
            success_fee.wf(),
            (desired_result is Some && processing_delay is Some && body is Some
                && downstream_node is None && downstream_payment is None) || (desired_result
                is None && processing_delay is None && body is None && downstream_node is Some
                && downstream_payment is Some),
            desired_result is Some ==> apply_spec(upfront_fee, body->Some_0.0) <= u64::MAX,
            desired_result is None ==> forwarded_amount(*downstream_payment->Some_0) <= u64::MAX,
            desired_result is None ==> apply_spec(
                upfront_fee,
                forwarded_amount(*downstream_payment->Some_0) as u64,
            ) + downstream_payment->Some_0.upfront_fee_satoshi.0 <= u64::MAX,
            desired_result is None ==> apply_spec(
                success_fee,
                forwarded_amount(*downstream_payment->Some_0) as u64,
            ) + downstream_payment->Some_0.success_fee_satoshi.0 <= u64::MAX,
            desired_result is None ==> route_len(*downstream_payment->Some_0) < MAX_ROUTE_LENGTH,
        ensures
            desired_result is Some ==> r.upfront_fee_satoshi.0 == apply_spec(
                upfront_fee,
                body->Some_0.0,
            ) && r.success_fee_satoshi.0 == 0 && r.desired_result == desired_result->Some_0
                && r.processing_delay == processing_delay->Some_0 && r.body == body->Some_0
                && r.downstream_node is None && r.downstream_payment is None && route_len(r) == 1,
            desired_result is None ==> relay_fields(
                r,
                upfront_fee,
                success_fee,
                *downstream_payment->Some_0,
            ) && r.downstream_node == downstream_node && r.downstream_payment
                == downstream_payment && route_len(r) == route_len(*downstream_payment->Some_0)
                + 1,
            route_len(r) <= MAX_ROUTE_LENGTH,
    {
        let is_last_hop = desired_result.is_some() && processing_delay.is_some() && body.is_some()
            && downstream_node.is_none() && downstream_payment.is_none();
        if is_last_hop {
            let b = body.unwrap();
            Payment {
                upfront_fee_satoshi: upfront_fee.apply(&b),
                success_fee_satoshi: Satoshi(0),
                desired_result: desired_result.unwrap(),
                processing_delay: processing_delay.unwrap(),
                body: b,
                downstream_node: None,
                downstream_payment: None,
            }
        } else {
            let dp = downstream_payment.unwrap();
            let dn = downstream_node.unwrap();
            let amount = dp.body.add(&dp.success_fee_satoshi);
            Payment {
                upfront_fee_satoshi: upfront_fee.apply(&amount).add(&dp.upfront_fee_satoshi),
                success_fee_satoshi: success_fee.apply(&amount).add(&dp.success_fee_satoshi),
                desired_result: dp.desired_result,
                processing_delay: dp.processing_delay,
                body: amount,
                downstream_node: Some(dn),
                downstream_payment: Some(dp),
            }
        }
    }

    /// The total amount this hop carries: its body plus the success fee
    /// owed behind it.
    pub fn get_amount(&self) -> (r: Satoshi)
        requires
            self.body.0 + self.success_fee_satoshi.0 <= u64::MAX,
        ensures
            r.0 == self.body.0 + self.success_fee_satoshi.0,
    {
        self.body.add(&self.success_fee_satoshi)
    }
}

} // verus!
