use ln_jamming_simulator::common::duration::Duration;
use ln_jamming_simulator::common::fee::Fee;
use ln_jamming_simulator::common::fee::FeeRate;
use ln_jamming_simulator::common::satoshi::Satoshi;
use ln_jamming_simulator::common::timestamp::Timestamp;

#[test]
fn satoshi_equality() {
    let amount1 = Satoshi(2);
    let amount2 = Satoshi(2);
    assert_eq!(amount1, amount2);
    assert!(amount1.ge(&amount2));
    assert!(amount1.le(&amount2));
}

#[test]
fn satoshi_inequality() {
    let higher_amount = Satoshi(3);
    let lower_amount = Satoshi(2);
    assert!(higher_amount.gt(&lower_amount));
    assert!(higher_amount.ge(&lower_amount));
    assert!(!higher_amount.le(&lower_amount));
    assert!(lower_amount.lt(&higher_amount));
    assert!(lower_amount.le(&higher_amount));
    assert!(!lower_amount.ge(&higher_amount));
}

#[test]
fn satoshi_addition() {
    let amount1 = Satoshi(2);
    let amount2 = Satoshi(3);
    let total = amount1.add(&amount2);
    assert_eq!(&total, &Satoshi(5));
}

#[test]
fn satoshi_subtraction() {
    let amount1 = Satoshi(3);
    let amount2 = Satoshi(2);
    let total = amount1.sub(&amount2);
    assert_eq!(&total, &Satoshi(1));
}

#[test]
fn satoshi_multiplication() {
    let amount = Satoshi(2);
    assert_eq!(&amount.mul(&FeeRate(3, 1)), &Satoshi(6));
    assert_eq!(&amount.mul(&FeeRate(37, 10)), &Satoshi(7));
}

#[test]
fn fee_application() {
    let amount = Satoshi(100);
    let fee = Fee::new(Satoshi(2), FeeRate(1, 100));
    assert_eq!(fee.apply(&amount), Satoshi(3));
}

#[test]
fn fee_default_is_zero() {
    let fee = Fee::default();
    assert_eq!(fee.apply(&Satoshi(12345)), Satoshi(0));
}

#[test]
fn timestamp_add_duration() {
    let ts1 = Timestamp(2);
    let duration = Duration(3);
    let ts2 = &ts1.add(&duration);
    assert_eq!(ts2, &Timestamp(5));
}

#[test]
fn satoshi_addition_at_the_limit() {
    let almost = Satoshi(u64::MAX - 1);
    let one = Satoshi(1);
    assert_eq!(almost.add(&one), Satoshi(u64::MAX));
    assert_eq!(Satoshi(u64::MAX).sub(&one), Satoshi(u64::MAX - 1));
}
