//! The transfer service.
//!
//! Value is moved by a token contract on the Soroban host, never by the core
//! itself. A [`PaymentHost`] is the core's handle on that contract. Every
//! transfer that the core asks for goes through [`PaymentHost::transfer`],
//! which keeps a log of the requests made and of the answers received, so
//! that the operations of the core can say which transfers they attempted,
//! and in which order. Balance queries are logged in the same way, apart
//! from the transfers.
//!
//! The calls into `soroban_sdk` at the bottom of this file are the part of
//! the crate that is trusted rather than proved.

use vstd::prelude::*;
use crate::account::{Account, AccountKind};
use crate::error::{refusal, TransferFailure};

verus! {

/// The host environment of `soroban_sdk`, carried through as it is.
#[verifier::external_type_specification]
#[verifier::external_body]
pub struct ExEnv(soroban_sdk::Env);

/// An address of `soroban_sdk`, carried through as it is.
#[verifier::external_type_specification]
#[verifier::external_body]
pub struct ExAddress(soroban_sdk::Address);

/// One request to the transfer service and its answer: `refusal` is `None`
/// when the funds moved and the service's reason when they did not.
pub struct TransferAttempt {
    pub from: Account,
    pub to: Account,
    pub amount: i128,
    pub refusal: Option<Seq<char>>,
}

/// One balance query to the transfer service and its answer: the balance
/// that the service holds for the account, or its reason for not saying.
pub struct BalanceQuery {
    pub account: Account,
    pub answer: Result<i128, Seq<char>>,
}

/// The core's handle on the token contract that moves value.
pub struct PaymentHost {
    env: soroban_sdk::Env,
    token: Account,
    attempts: Ghost<Seq<TransferAttempt>>,
    queries: Ghost<Seq<BalanceQuery>>,
}

impl PaymentHost {
    /// What holds of every handle: its token is a contract.
    #[verifier::type_invariant]
    pub open spec fn is_sound(&self) -> bool {
        self.token().kind == AccountKind::Contract
    }

    /// The token contract that this handle reaches.
    pub closed spec fn token(&self) -> Account {
        self.token
    }

    /// The transfers requested through this handle so far, oldest first, each
    /// with the answer it got.
    pub closed spec fn attempts(&self) -> Seq<TransferAttempt> {
        self.attempts@
    }

    /// The balances asked for through this handle so far, oldest first, each
    /// with the answer it got.
    pub closed spec fn queries(&self) -> Seq<BalanceQuery> {
        self.queries@
    }

    /// A handle on the token contract `token` in the environment `env`, if
    /// `token` is a contract; a wallet moves no value for others. Nothing has
    /// been asked through the new handle yet.
    pub fn new(env: soroban_sdk::Env, token: &Account) -> (host: Option<PaymentHost>)
        ensures
            host is Some <==> token.kind == AccountKind::Contract,
            host matches Some(h) ==> {
                &&& h.token() == *token
                &&& h.attempts() == Seq::<TransferAttempt>::empty()
                &&& h.queries() == Seq::<BalanceQuery>::empty()
            },
    {
        match token.kind {
            AccountKind::Contract => Some(
                PaymentHost {
                    env,
                    token: *token,
                    attempts: Ghost(Seq::empty()),
                    queries: Ghost(Seq::empty()),
                },
            ),
            AccountKind::Wallet => None,
        }
    }

    /// Asks the token contract to move `amount` from `from` to `to`, once,
    /// and reports its answer. A transfer that went through cannot be taken
    /// back.
    pub fn transfer(&mut self, from: &Account, to: &Account, amount: i128) -> (outcome: Result<
        (),
        TransferFailure,
    >)
        ensures
            final(self).token() == old(self).token(),
            final(self).queries() == old(self).queries(),
            final(self).attempts() == old(self).attempts().push(
                attempt_of(*from, *to, amount, outcome),
            ),
    {
        proof {
            use_type_invariant(&*self);
        }
        let from_address = account_address(&self.env, from);
        let to_address = account_address(&self.env, to);
        let outcome = token_try_transfer(
            &self.env,
            &self.token,
            &from_address,
            &to_address,
            amount,
        );
        proof {
            self.attempts@ = self.attempts@.push(attempt_of(*from, *to, amount, outcome));
        }
        outcome
    }

    /// Asks the token contract for the balance of `account`, once, and
    /// reports its answer. The answer is the contract's own; the core keeps
    /// no balances to hold it against. No transfer is requested.
    pub(crate) fn balance_of(&mut self, account: &Account) -> (balance: Result<
        i128,
        TransferFailure,
    >)
        ensures
            final(self).token() == old(self).token(),
            final(self).attempts() == old(self).attempts(),
            final(self).queries() == old(self).queries().push(query_of(*account, balance)),
    {
        proof {
            use_type_invariant(&*self);
        }
        let address = account_address(&self.env, account);
        let balance = token_try_balance(&self.env, &self.token, &address);
        proof {
            self.queries@ = self.queries@.push(query_of(*account, balance));
        }
        balance
    }
}

/// The log entry of a query for the balance of `account` that the transfer
/// service answered with `answer`.
pub open spec fn query_of(account: Account, answer: Result<i128, TransferFailure>) -> BalanceQuery {
    BalanceQuery {
        account,
        answer: match answer {
            Ok(balance) => Ok(balance),
            Err(failure) => Err(failure.reason@),
        },
    }
}

/// The log entry of a request to move `amount` from `from` to `to` that the
/// transfer service answered with `outcome`.
pub open spec fn attempt_of(
    from: Account,
    to: Account,
    amount: i128,
    outcome: Result<(), TransferFailure>,
) -> TransferAttempt {
    TransferAttempt { from, to, amount, refusal: refusal(outcome) }
}

/// Calls `soroban_sdk::address_payload::AddressPayload::to_address`: builds
/// the host address that has the account's kind and key. Nothing is claimed
/// of the address here; the core only hands it on to the token contract.
#[verifier::external_body]
fn account_address(env: &soroban_sdk::Env, account: &Account) -> (address: soroban_sdk::Address) {
    let key = soroban_sdk::BytesN::from_array(env, &account.key);
    let payload = match account.kind {
        AccountKind::Wallet => {
            soroban_sdk::address_payload::AddressPayload::AccountIdPublicKeyEd25519(key)
        },
        AccountKind::Contract => soroban_sdk::address_payload::AddressPayload::ContractIdHash(key),
    };
    payload.to_address(env)
}

/// Calls `soroban_sdk::token::TokenClient::try_transfer` on the token
/// contract whose id is the key of `token`. The host cannot call an address
/// that is no contract, so `token` has to be one. Whether the transfer goes
/// through depends on the state of the ledger, so nothing is claimed of the
/// answer. A refusal carries the host's description of the error. An
/// invocation that runs out of the host's resource budget is ended by the
/// host, whatever is called.
#[verifier::external_body]
fn token_try_transfer(
    env: &soroban_sdk::Env,
    token: &Account,
    from: &soroban_sdk::Address,
    to: &soroban_sdk::Address,
    amount: i128,
) -> (outcome: Result<(), TransferFailure>)
    requires
        token.kind == AccountKind::Contract,
{
    let id = soroban_sdk::BytesN::from_array(env, &token.key);
    let token = soroban_sdk::address_payload::AddressPayload::ContractIdHash(id).to_address(env);
    match soroban_sdk::token::TokenClient::new(env, &token).try_transfer(from, to, &amount) {
        Ok(Ok(())) => Ok(()),
        Ok(Err(error)) => Err(TransferFailure { reason: format!("{:?}", error) }),
        Err(Ok(error)) => Err(TransferFailure { reason: format!("{:?}", error) }),
        Err(Err(error)) => Err(TransferFailure { reason: format!("{:?}", error) }),
    }
}

/// Calls `soroban_sdk::token::TokenClient::try_balance` on the token contract
/// whose id is the key of `token`, which has to be a contract as for a
/// transfer. The balance is whatever the contract holds for the address, so
/// nothing is claimed of it. A refusal carries the host's description of the
/// error.
#[verifier::external_body]
fn token_try_balance(
    env: &soroban_sdk::Env,
    token: &Account,
    account: &soroban_sdk::Address,
) -> (balance: Result<i128, TransferFailure>)
    requires
        token.kind == AccountKind::Contract,
{
    let id = soroban_sdk::BytesN::from_array(env, &token.key);
    let token = soroban_sdk::address_payload::AddressPayload::ContractIdHash(id).to_address(env);
    match soroban_sdk::token::TokenClient::new(env, &token).try_balance(account) {
        Ok(Ok(balance)) => Ok(balance),
        Ok(Err(error)) => Err(TransferFailure { reason: format!("{:?}", error) }),
        Err(Ok(error)) => Err(TransferFailure { reason: format!("{:?}", error) }),
        Err(Err(error)) => Err(TransferFailure { reason: format!("{:?}", error) }),
    }
}

} // verus!
