//! Admission checks.
//!
//! Every operation that can move value runs these checks to completion before
//! it attempts a transfer or records anything. They read their arguments and
//! nothing else, so asking again gives the same answer.

use vstd::prelude::*;
use crate::account::Account;
use crate::error::PaymentError;

verus! {

/// An amount may enter a transfer only if it is strictly positive.
pub open spec fn amount_is_valid(amount: i128) -> bool {
    amount > 0
}

/// A recurring payment needs a strictly positive period.
pub open spec fn interval_is_valid(interval: i64) -> bool {
    interval > 0
}

/// Every amount of a batch is strictly positive.
pub open spec fn all_amounts_valid(amounts: Seq<i128>) -> bool {
    forall|i: int| 0 <= i < amounts.len() ==> amount_is_valid(#[trigger] amounts[i])
}

/// The verdict on a single amount.
pub open spec fn amount_verdict(amount: i128) -> Result<(), PaymentError> {
    if amount_is_valid(amount) {
        Ok(())
    } else {
        Err(PaymentError::InvalidAmount)
    }
}

/// The verdict on the period of a recurring payment.
pub open spec fn interval_verdict(interval: i64) -> Result<(), PaymentError> {
    if interval_is_valid(interval) {
        Ok(())
    } else {
        Err(PaymentError::InvalidInterval)
    }
}

/// The verdict on two parallel lists, given their lengths.
pub open spec fn lengths_verdict(payees: nat, amounts: nat) -> Result<(), PaymentError> {
    if payees == amounts {
        Ok(())
    } else {
        Err(PaymentError::LengthMismatch)
    }
}

/// The verdict on the amounts of a batch.
pub open spec fn amounts_verdict(amounts: Seq<i128>) -> Result<(), PaymentError> {
    if all_amounts_valid(amounts) {
        Ok(())
    } else {
        Err(PaymentError::InvalidAmount)
    }
}

/// The verdict on a bulk request: the lengths are compared first, then every
/// amount is checked.
pub open spec fn bulk_verdict(payees: nat, amounts: Seq<i128>) -> Result<(), PaymentError> {
    if payees != amounts.len() {
        Err(PaymentError::LengthMismatch)
    } else {
        amounts_verdict(amounts)
    }
}

/// The verdict on a new recurring payment: the amount is checked first, then
/// the period.
pub open spec fn schedule_verdict(amount: i128, interval: i64) -> Result<(), PaymentError> {
    if !amount_is_valid(amount) {
        Err(PaymentError::InvalidAmount)
    } else {
        interval_verdict(interval)
    }
}

/// Rejects an amount that is zero or negative.
pub fn validate_amount(amount: i128) -> (verdict: Result<(), PaymentError>)
    ensures
        verdict == amount_verdict(amount),
{
    if amount > 0 {
        Ok(())
    } else {
        Err(PaymentError::InvalidAmount)
    }
}

/// Rejects a period that is zero or negative.
pub fn validate_interval(interval: i64) -> (verdict: Result<(), PaymentError>)
    ensures
        verdict == interval_verdict(interval),
{
    if interval > 0 {
        Ok(())
    } else {
        Err(PaymentError::InvalidInterval)
    }
}

/// Rejects a bulk request whose two lists differ in length.
pub fn validate_parallel_lengths(payees: &Vec<Account>, amounts: &Vec<i128>) -> (verdict: Result<
    (),
    PaymentError,
>)
    ensures
        verdict == lengths_verdict(payees@.len(), amounts@.len()),
{
    if payees.len() == amounts.len() {
        Ok(())
    } else {
        Err(PaymentError::LengthMismatch)
    }
}

/// Rejects a batch in which any amount is zero or negative. The whole batch
/// is looked at, whatever comes first in it.
pub fn validate_amounts(amounts: &Vec<i128>) -> (verdict: Result<(), PaymentError>)
    ensures
        verdict == amounts_verdict(amounts@),
{
    let mut i: usize = 0;
    while i < amounts.len()
        invariant
            i <= amounts.len(),
            forall|j: int| 0 <= j < i ==> amount_is_valid(#[trigger] amounts@[j]),
        decreases amounts.len() - i,
    {
        if amounts[i] <= 0 {
            assert(!amount_is_valid(amounts@[i as int]));
            return Err(PaymentError::InvalidAmount);
        }
        i = i + 1;
    }
    Ok(())
}

/// The admission check of a bulk request: equal lengths, then every amount.
pub fn validate_bulk(payees: &Vec<Account>, amounts: &Vec<i128>) -> (verdict: Result<
    (),
    PaymentError,
>)
    ensures
        verdict == bulk_verdict(payees@.len(), amounts@),
{
    match validate_parallel_lengths(payees, amounts) {
        Err(e) => Err(e),
        Ok(_) => validate_amounts(amounts),
    }
}

/// The admission check of a new recurring payment: the amount, then the
/// period.
pub fn validate_schedule(amount: i128, interval: i64) -> (verdict: Result<(), PaymentError>)
    ensures
        verdict == schedule_verdict(amount, interval),
{
    match validate_amount(amount) {
        Err(e) => Err(e),
        Ok(_) => validate_interval(interval),
    }
}

} // verus!
