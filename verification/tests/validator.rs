use health_payment::account::{Account, AccountKind};
use health_payment::error::PaymentError;
use health_payment::validator::{
    validate_amount, validate_amounts, validate_bulk, validate_interval,
    validate_parallel_lengths, validate_schedule,
};

fn wallet(tag: u8) -> Account {
    Account { kind: AccountKind::Wallet, key: [tag; 32] }
}

#[test]
fn positive_amount_is_accepted() {
    assert_eq!(validate_amount(1), Ok(()));
    assert_eq!(validate_amount(500), Ok(()));
    assert_eq!(validate_amount(i128::MAX), Ok(()));
}

#[test]
fn zero_amount_is_rejected() {
    assert_eq!(validate_amount(0), Err(PaymentError::InvalidAmount));
}

#[test]
fn negative_amount_is_rejected() {
    assert_eq!(validate_amount(-1), Err(PaymentError::InvalidAmount));
    assert_eq!(validate_amount(i128::MIN), Err(PaymentError::InvalidAmount));
}

#[test]
fn positive_interval_is_accepted() {
    assert_eq!(validate_interval(1), Ok(()));
    assert_eq!(validate_interval(86400), Ok(()));
    assert_eq!(validate_interval(i64::MAX), Ok(()));
}

#[test]
fn zero_interval_is_rejected() {
    assert_eq!(validate_interval(0), Err(PaymentError::InvalidInterval));
}

#[test]
fn negative_interval_is_rejected() {
    assert_eq!(validate_interval(-86400), Err(PaymentError::InvalidInterval));
    assert_eq!(validate_interval(i64::MIN), Err(PaymentError::InvalidInterval));
}

#[test]
fn equal_lengths_are_accepted() {
    assert_eq!(validate_parallel_lengths(&vec![], &vec![]), Ok(()));
    assert_eq!(validate_parallel_lengths(&vec![wallet(1), wallet(2)], &vec![10, 20]), Ok(()));
}

#[test]
fn different_lengths_are_rejected() {
    assert_eq!(
        validate_parallel_lengths(&vec![wallet(1), wallet(2)], &vec![10]),
        Err(PaymentError::LengthMismatch)
    );
    assert_eq!(
        validate_parallel_lengths(&vec![], &vec![10]),
        Err(PaymentError::LengthMismatch)
    );
}

#[test]
fn every_amount_of_a_batch_is_checked() {
    assert_eq!(validate_amounts(&vec![]), Ok(()));
    assert_eq!(validate_amounts(&vec![10, 20, 30]), Ok(()));
    assert_eq!(validate_amounts(&vec![0, 20, 30]), Err(PaymentError::InvalidAmount));
    assert_eq!(validate_amounts(&vec![10, 20, -30]), Err(PaymentError::InvalidAmount));
    assert_eq!(validate_amounts(&vec![10, 0, 30]), Err(PaymentError::InvalidAmount));
}

#[test]
fn bulk_check_compares_lengths_before_amounts() {
    let payees = vec![wallet(1), wallet(2)];
    assert_eq!(validate_bulk(&payees, &vec![10, 20]), Ok(()));
    assert_eq!(validate_bulk(&payees, &vec![10, -20]), Err(PaymentError::InvalidAmount));
    assert_eq!(validate_bulk(&payees, &vec![-10]), Err(PaymentError::LengthMismatch));
    assert_eq!(validate_bulk(&payees, &vec![10, 20, 0]), Err(PaymentError::LengthMismatch));
}

#[test]
fn schedule_check_looks_at_the_amount_before_the_interval() {
    assert_eq!(validate_schedule(500, 86400), Ok(()));
    assert_eq!(validate_schedule(0, 86400), Err(PaymentError::InvalidAmount));
    assert_eq!(validate_schedule(500, 0), Err(PaymentError::InvalidInterval));
    assert_eq!(validate_schedule(-5, -1), Err(PaymentError::InvalidAmount));
}

#[test]
fn validating_again_gives_the_same_verdict() {
    for _ in 0..5 {
        assert_eq!(validate_amount(-7), Err(PaymentError::InvalidAmount));
        assert_eq!(validate_interval(0), Err(PaymentError::InvalidInterval));
        assert_eq!(
            validate_parallel_lengths(&vec![wallet(1)], &vec![]),
            Err(PaymentError::LengthMismatch)
        );
        assert_eq!(validate_bulk(&vec![wallet(1)], &vec![0]), Err(PaymentError::InvalidAmount));
    }
}

#[test]
fn accounts_are_equal_when_kind_and_key_agree() {
    let a = wallet(7);
    let b = Account { kind: AccountKind::Wallet, key: [7; 32] };
    assert!(a.same_as(&b));
    assert!(a.same_as(&a));
}

#[test]
fn accounts_differ_in_kind_or_in_any_byte_of_the_key() {
    let a = wallet(7);
    let contract = Account { kind: AccountKind::Contract, key: [7; 32] };
    assert!(!a.same_as(&contract));
    let mut key = [7u8; 32];
    key[31] = 8;
    assert!(!a.same_as(&Account { kind: AccountKind::Wallet, key }));
    let mut key = [7u8; 32];
    key[0] = 6;
    assert!(!a.same_as(&Account { kind: AccountKind::Wallet, key }));
    assert!(AccountKind::Wallet.same_as(&AccountKind::Wallet));
    assert!(!AccountKind::Wallet.same_as(&AccountKind::Contract));
}
