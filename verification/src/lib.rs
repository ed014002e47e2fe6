//! The execution core of a ledger-backed payment scheduler.
//!
//! The core validates, executes and records value transfers: one-time
//! payments, bulk payments and recurring payments that come due on a
//! schedule. It is made of four parts:
//!
//! - [`validator`]: the admission checks that run before anything else;
//! - [`ledger`]: the append-only log of settled transfers and its history
//!   queries;
//! - [`registry`]: the recurring-payment definitions and their due times;
//! - [`executor`]: the operations, on a [`HealthPaymentSystem`].
//!
//! Value is moved by a token contract on the Soroban host, reached through a
//! [`PaymentHost`] ([`host`]). The properties that tie the operations
//! together are stated and proved in [`laws`].

pub mod account;
pub mod error;
pub mod executor;
pub mod host;
pub mod laws;
pub mod ledger;
pub mod registry;
pub mod validator;

pub use account::{Account, AccountKind};
pub use error::{PaymentError, TransferFailure};
pub use executor::{BulkFailure, HealthPaymentSystem};
pub use host::PaymentHost;
pub use ledger::{
    Cursor, HistoryPage, PaymentEvent, TransactionLedger, TransferOutcome, TransferRecord,
};
pub use registry::{ScheduleDefinition, ScheduleRegistry, ScheduleStatus};
