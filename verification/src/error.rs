//! Errors of the payment core.

use vstd::prelude::*;

verus! {

/// Why a payment operation did not complete.
///
/// The first five kinds are decided by the core before it touches anything:
/// no transfer is attempted and nothing is recorded. `TransferError` is the
/// transfer service's refusal; the attempt has been recorded as rejected by
/// the time the caller sees it. `StorageFailure` is reserved for the layer
/// that persists the registry and the ledger: the in-memory core never
/// produces it.
#[derive(Clone, Debug, PartialEq, Eq)]
pub enum PaymentError {
    /// The amount was zero or negative.
    InvalidAmount,
    /// The interval of a recurring payment was zero or negative.
    InvalidInterval,
    /// A bulk request named a different number of payees than of amounts.
    LengthMismatch,
    /// No schedule has the given id.
    NotFound,
    /// The schedule belongs to another account.
    NotOwner,
    /// The transfer service refused the transfer; the text is its reason.
    TransferError(String),
    /// A mutation could not be durably persisted.
    StorageFailure,
}

/// The mathematical content of a [`PaymentError`]: the same kinds, with the
/// transfer service's reason as a sequence of characters.
#[verifier::ext_equal]
pub enum ErrorView {
    InvalidAmount,
    InvalidInterval,
    LengthMismatch,
    NotFound,
    NotOwner,
    TransferError(Seq<char>),
    StorageFailure,
}

impl View for PaymentError {
    type V = ErrorView;

    open spec fn view(&self) -> ErrorView {
        match *self {
            PaymentError::InvalidAmount => ErrorView::InvalidAmount,
            PaymentError::InvalidInterval => ErrorView::InvalidInterval,
            PaymentError::LengthMismatch => ErrorView::LengthMismatch,
            PaymentError::NotFound => ErrorView::NotFound,
            PaymentError::NotOwner => ErrorView::NotOwner,
            PaymentError::TransferError(reason) => ErrorView::TransferError(reason@),
            PaymentError::StorageFailure => ErrorView::StorageFailure,
        }
    }
}

/// A refusal by the transfer service, with the reason it gave.
#[derive(Clone, Debug, PartialEq, Eq)]
pub struct TransferFailure {
    pub reason: String,
}

/// What the transfer service answered, as a value of the model: `None` for a
/// transfer that went through, the reason of the refusal otherwise.
pub open spec fn refusal(outcome: Result<(), TransferFailure>) -> Option<Seq<char>> {
    match outcome {
        Ok(_) => None,
        Err(failure) => Some(failure.reason@),
    }
}

} // verus!
