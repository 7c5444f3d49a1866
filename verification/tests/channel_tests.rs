use ln_jamming_simulator::channel::channelindirection::ChannelInDirection;
use ln_jamming_simulator::channel::direction::Direction;
use ln_jamming_simulator::channel::htlc::Htlc;
use ln_jamming_simulator::common::errortypes::ErrorType;
use ln_jamming_simulator::common::fee::Fee;
use ln_jamming_simulator::common::fee::FeeRate;
use ln_jamming_simulator::common::fee::FeeType;
use ln_jamming_simulator::common::probability::Probability;
use ln_jamming_simulator::common::nodeid::NodeId;
use ln_jamming_simulator::common::paymentid::PaymentId;
use ln_jamming_simulator::common::paymentresult::PaymentResult;
use ln_jamming_simulator::common::satoshi::Satoshi;
use ln_jamming_simulator::common::timestamp::Timestamp;

#[test]
fn direction_new() {
    let id_coingate = NodeId(String::from(
        "0242a4ae0c5bef18048fbecf995094b74bfb0f7391418d71ed394784373f41e4f3",
    ));
    let id_acinq = NodeId(String::from(
        "03864ef025fde8fb587d989186ce6a4a186895ee44a926bfc370e2c366597a3f8f",
    ));
    assert_eq!(Direction::new(&id_coingate, &id_acinq), Direction::Alph);
    assert_eq!(Direction::new(&id_acinq, &id_coingate), Direction::NonAlph);
}

#[test]
fn channel_dummy_test() {
    assert!(true);
}

#[test]
fn channelindirection_assign_fee() {
    let ch_in_dir = ChannelInDirection::new(
        None,
        Some(Fee::new(Satoshi(5), FeeRate(2, 100))),
        Some(Fee::new(Satoshi(1), FeeRate(3, 100))),
        None,
        None,
    );
    let amount = Satoshi(100);
    let success_fee = ch_in_dir.requires_fee(FeeType::Success, &amount);
    let upfront_fee = ch_in_dir.requires_fee(FeeType::Upfront, &amount);
    let total_fee = success_fee.add(&upfront_fee);
    assert_eq!(success_fee, Satoshi(4));
    assert_eq!(upfront_fee, Satoshi(7));
    assert_eq!(ch_in_dir.requires_total_fee(&amount), total_fee);
}

fn assert_queue_is_empty(ch_in_dir: &ChannelInDirection) {
    assert!(ch_in_dir.all_slots_free());
    assert!(!ch_in_dir.all_slots_busy());
    assert_eq!(ch_in_dir.get_num_slots_busy(), 0);
}

#[test]
fn channelindirection_queue_size() {
    // set up an empty channelindirection with 2 slots
    let mut ch_in_dir = ChannelInDirection::new(Some(2), None, None, None, None);
    assert_queue_is_empty(&ch_in_dir);
    assert_eq!(ch_in_dir.get_num_slots_free(), 2);
    assert_queue_is_empty(&ch_in_dir);
    // push one HTLC
    let htlc1 = Htlc::new(
        PaymentId(String::from("htlc1")),
        Satoshi(1),
        PaymentResult::SUCCESS,
    );
    ch_in_dir.push_htlc(Timestamp(10), htlc1);
    assert!(!ch_in_dir.all_slots_free());
    assert!(!ch_in_dir.all_slots_busy());
    assert_eq!(ch_in_dir.get_num_slots_busy(), 1);
    assert_eq!(ch_in_dir.get_num_slots_free(), 1);
    assert_eq!(ch_in_dir.get_earliest_htlc_resolution_time(), Timestamp(10));
    // push another HTLC
    let htlc2 = Htlc::new(
        PaymentId(String::from("htlc2")),
        Satoshi(2),
        PaymentResult::SUCCESS,
    );
    ch_in_dir.push_htlc(Timestamp(5), htlc2);
    assert!(!ch_in_dir.all_slots_free());
    assert!(ch_in_dir.all_slots_busy());
    assert_eq!(ch_in_dir.get_num_slots_busy(), 2);
    assert_eq!(ch_in_dir.get_num_slots_free(), 0);
    assert_eq!(ch_in_dir.get_earliest_htlc_resolution_time(), Timestamp(5));
    // pop htlc - the lower-timestamp one is popped first
    let htlc_popped = ch_in_dir.pop_htlc();
    let (htlc, resolution_time) = htlc_popped;
    assert_eq!(htlc.get_id(), &PaymentId(String::from("htlc2")));
    assert_eq!(resolution_time, Timestamp(5));
    assert_eq!(ch_in_dir.get_earliest_htlc_resolution_time(), Timestamp(10));
    // pop htlc - the other one is popped second
    let htlc_popped = ch_in_dir.pop_htlc();
    let (htlc, resolution_time) = htlc_popped;
    assert_eq!(htlc.get_id(), &PaymentId(String::from("htlc1")));
    assert_eq!(resolution_time, Timestamp(10));
    // the queue is empty now
    assert_queue_is_empty(&ch_in_dir);
    assert_eq!(ch_in_dir.get_num_slots_free(), 2);
}

#[test]
fn channelindirection_ensure_free_slots() {
    let mut ch_in_dir = ChannelInDirection::new(Some(4), None, None, None, None);
    let htlc1 = Htlc::new(
        PaymentId(String::from("htlc1")),
        Satoshi(100),
        PaymentResult::SUCCESS,
    );
    let htlc2 = Htlc::new(
        PaymentId(String::from("htlc2")),
        Satoshi(200),
        PaymentResult::SUCCESS,
    );
    let htlc3 = Htlc::new(
        PaymentId(String::from("htlc3")),
        Satoshi(300),
        PaymentResult::SUCCESS,
    );
    ch_in_dir.push_htlc(Timestamp(5), htlc1);
    ch_in_dir.push_htlc(Timestamp(10), htlc2);
    ch_in_dir.push_htlc(Timestamp(15), htlc3);
    // at time 3, we can ensure one slot, no HTLCs are released
    let (success, released_htlcs) = ch_in_dir.ensure_free_slots(&Timestamp(3), 1);
    assert_eq!(success, true);
    assert_eq!(released_htlcs.len(), 0);
    // at time 5, we can ensure one slot, no HTLCs are released
    let (success, released_htlcs) = ch_in_dir.ensure_free_slots(&Timestamp(5), 1);
    assert_eq!(success, true);
    assert_eq!(released_htlcs.len(), 0);
    // at time 6, we can ensure one slot, no HTLCs are released
    let (success, released_htlcs) = ch_in_dir.ensure_free_slots(&Timestamp(6), 1);
    assert_eq!(success, true);
    assert_eq!(released_htlcs.len(), 0);
    // at time 5, we can ensure two slots by releasing the htlc with resolution time 5
    let (success, released_htlcs) = ch_in_dir.ensure_free_slots(&Timestamp(5), 2);
    assert_eq!(success, true);
    assert_eq!(released_htlcs.len(), 1);
    // now there are two free slots
    assert_eq!(ch_in_dir.get_num_slots_free(), 2);
    // at time 12, we cannot ensure 4 slots
    let (success, released_htlcs) = ch_in_dir.ensure_free_slots(&Timestamp(12), 4);
    assert_eq!(success, false);
    assert_eq!(released_htlcs.len(), 0);
    // at time 12, we can ensure 3 slots
    let (success, released_htlcs) = ch_in_dir.ensure_free_slots(&Timestamp(12), 3);
    assert_eq!(success, true);
    assert_eq!(released_htlcs.len(), 1);
    assert_eq!(ch_in_dir.get_num_slots_free(), 3);
}

fn some_htlc(tag: u64) -> Htlc {
    Htlc::new(
        PaymentId(format!("payment-{}", tag)),
        Satoshi(tag),
        PaymentResult::SUCCESS,
    )
}

#[test]
fn slots_fill_to_capacity() {
    for k in [1usize, 4, 483] {
        let mut ch = ChannelInDirection::new(Some(k), None, None, None, None);
        assert_eq!(ch.get_num_slots_free(), k);
        for i in 0..k {
            assert!(!ch.all_slots_busy());
            ch.push_htlc(Timestamp(i as u64), some_htlc(i as u64));
        }
        // after k pushes every slot is busy: a further push is not allowed
        assert!(ch.all_slots_busy());
        assert_eq!(ch.get_num_slots_free(), 0);
        assert_eq!(ch.get_num_slots_busy(), k);
    }
}

#[test]
fn earliest_is_minimum() {
    let mut ch = ChannelInDirection::new(Some(8), None, None, None, None);
    for (i, t) in [40u64, 10, 30, 20, 50].iter().enumerate() {
        ch.push_htlc(Timestamp(*t), some_htlc(i as u64));
        let mut min_so_far = u64::MAX;
        for t2 in &[40u64, 10, 30, 20, 50][..=i] {
            min_so_far = min_so_far.min(*t2);
        }
        assert_eq!(ch.get_earliest_htlc_resolution_time(), Timestamp(min_so_far));
    }
}

#[test]
fn pops_in_time_order() {
    let mut ch = ChannelInDirection::new(Some(8), None, None, None, None);
    for (i, t) in [40u64, 10, 30, 10, 50, 20].iter().enumerate() {
        ch.push_htlc(Timestamp(*t), some_htlc(i as u64));
    }
    let mut last = 0u64;
    while !ch.all_slots_free() {
        let (_, t) = ch.pop_htlc();
        assert!(t.0 >= last);
        last = t.0;
    }
    // equal resolution times come out in insertion order
    let mut ch = ChannelInDirection::new(Some(4), None, None, None, None);
    ch.push_htlc(Timestamp(7), some_htlc(1));
    ch.push_htlc(Timestamp(7), some_htlc(2));
    let (first, _) = ch.pop_htlc();
    let (second, _) = ch.pop_htlc();
    assert_eq!(first.get_id(), &PaymentId(String::from("payment-1")));
    assert_eq!(second.get_id(), &PaymentId(String::from("payment-2")));
}

#[test]
fn eviction_is_transactional() {
    // capacity 4, transfers maturing at 5, 10 and 15
    let mut ch = ChannelInDirection::new(Some(4), None, None, None, None);
    ch.push_htlc(Timestamp(5), some_htlc(1));
    ch.push_htlc(Timestamp(10), some_htlc(2));
    ch.push_htlc(Timestamp(15), some_htlc(3));
    // one free slot suffices at time 3: nothing is released
    let (ok, released) = ch.ensure_free_slots(&Timestamp(3), 1);
    assert!(ok);
    assert!(released.is_empty());
    // two slots at time 5: the transfer maturing at 5 is released
    let (ok, released) = ch.ensure_free_slots(&Timestamp(5), 2);
    assert!(ok);
    assert_eq!(released.len(), 1);
    assert_eq!(released[0].1, Timestamp(5));
    assert_eq!(released[0].0.get_id(), &PaymentId(String::from("payment-1")));
    // four slots at time 12: the transfer maturing at 15 blocks it, and
    // the failed attempt releases nothing and changes nothing
    let busy_before = ch.get_num_slots_busy();
    let earliest_before = ch.get_earliest_htlc_resolution_time();
    let (ok, released) = ch.ensure_free_slots(&Timestamp(12), 4);
    assert!(!ok);
    assert!(released.is_empty());
    assert_eq!(ch.get_num_slots_busy(), busy_before);
    assert_eq!(ch.get_earliest_htlc_resolution_time(), earliest_before);
    // three slots at time 12: the transfer maturing at 10 is released,
    // and the one maturing at 15 stays: no unmatured transfer ever leaves
    let (ok, released) = ch.ensure_free_slots(&Timestamp(12), 3);
    assert!(ok);
    assert_eq!(released.len(), 1);
    assert_eq!(released[0].1, Timestamp(10));
    assert_eq!(ch.get_earliest_htlc_resolution_time(), Timestamp(15));
}

#[test]
fn new_default_configuration() {
    let ch = ChannelInDirection::new_default();
    assert!(ch.all_slots_free());
    assert_eq!(ch.get_num_slots_free(), 483);
    assert_eq!(ch.deliberately_fail_prob, Probability(0));
    assert_eq!(ch.spoofing_error_type, ErrorType::LowBalance);
    // the default fee is zero
    assert_eq!(ch.requires_total_fee(&Satoshi(1000)), Satoshi(0));
}

#[test]
fn set_fee_replaces_one_schedule() {
    let mut ch = ChannelInDirection::new_default();
    ch.set_fee(FeeType::Success, Fee::new(Satoshi(5), FeeRate(2, 100)));
    assert_eq!(ch.requires_fee(FeeType::Success, &Satoshi(100)), Satoshi(7));
    assert_eq!(ch.requires_fee(FeeType::Upfront, &Satoshi(100)), Satoshi(0));
}

#[test]
fn direction_orders_prefixes() {
    let shorter = NodeId(String::from("ab"));
    let longer = NodeId(String::from("abc"));
    assert_eq!(Direction::new(&shorter, &longer), Direction::Alph);
    assert_eq!(Direction::new(&longer, &shorter), Direction::NonAlph);
}

#[test]
fn reset_slots_empties_and_resizes() {
    let mut ch = ChannelInDirection::new(Some(4), None, None, None, None);
    ch.push_htlc(Timestamp(5), some_htlc(1));
    ch.push_htlc(Timestamp(6), some_htlc(2));
    assert_eq!(ch.get_num_slots_busy(), 2);
    ch.reset_slots(Some(7));
    assert!(ch.all_slots_free());
    assert_eq!(ch.get_num_slots_free(), 7);
    ch.reset_slots(None);
    assert_eq!(ch.get_num_slots_free(), 483);
}
