use health_payment::account::{Account, AccountKind};
use health_payment::error::PaymentError;
use health_payment::executor::{balance_answer, BulkFailure, HealthPaymentSystem};
use health_payment::error::TransferFailure;
use health_payment::host::PaymentHost;
use health_payment::ledger::{Cursor, PaymentEvent, TransferOutcome, TransferRecord};
use health_payment::registry::{ScheduleDefinition, ScheduleStatus};
use soroban_sdk::address_payload::AddressPayload;
use soroban_sdk::testutils::{Address as _, EnvTestConfig};
use soroban_sdk::token::{StellarAssetClient, TokenClient};
use soroban_sdk::{Address, Env};

const NOW: u64 = 1_700_000_000;
const DAY: i64 = 86400;

fn account_of(address: &Address) -> Account {
    match AddressPayload::from_address(address) {
        Some(AddressPayload::ContractIdHash(key)) => {
            Account { kind: AccountKind::Contract, key: key.to_array() }
        }
        Some(AddressPayload::AccountIdPublicKeyEd25519(key)) => {
            Account { kind: AccountKind::Wallet, key: key.to_array() }
        }
        None => panic!("an address of an unknown kind"),
    }
}

/// A token contract on a fresh host, with the means to fund accounts and to
/// read their balances.
struct Bank {
    env: Env,
    token: Address,
}

impl Bank {
    fn open() -> Bank {
        let env = Env::new_with_config(EnvTestConfig { capture_snapshot_at_drop: false });
        env.mock_all_auths();
        let issuer = Address::generate(&env);
        let token = env.register_stellar_asset_contract_v2(issuer).address();
        Bank { env, token }
    }

    fn host(&self) -> PaymentHost {
        PaymentHost::new(self.env.clone(), &account_of(&self.token)).unwrap()
    }

    /// A new account that holds `funds`.
    fn customer(&self, funds: i128) -> (Address, Account) {
        let address = Address::generate(&self.env);
        if funds > 0 {
            StellarAssetClient::new(&self.env, &self.token).mint(&address, &funds);
        }
        let account = account_of(&address);
        (address, account)
    }

    fn balance(&self, address: &Address) -> i128 {
        TokenClient::new(&self.env, &self.token).balance(address)
    }
}

fn reason_of(error: &PaymentError) -> String {
    match error {
        PaymentError::TransferError(reason) => reason.clone(),
        other => panic!("not a transfer error: {:?}", other),
    }
}

#[test]
fn a_payment_moves_the_funds_and_is_recorded_as_committed() {
    let bank = Bank::open();
    let mut host = bank.host();
    let (payer_address, payer) = bank.customer(1000);
    let (payee_address, payee) = bank.customer(0);
    let mut system = HealthPaymentSystem::new();

    let result =
        system.execute_payment(&mut host, payer, payee, 400, String::from("First payment"), NOW);

    let expected = TransferRecord {
        payer,
        payee,
        amount: 400,
        message: String::from("First payment"),
        timestamp: NOW,
        outcome: TransferOutcome::Committed,
        reason: None,
    };
    assert_eq!(result, Ok(expected.duplicate()));
    assert_eq!(system.ledger().records(), &vec![expected]);
    assert_eq!(bank.balance(&payer_address), 600);
    assert_eq!(bank.balance(&payee_address), 400);
    assert_eq!(system.registry().len(), 0);
}

#[test]
fn a_payment_of_a_non_positive_amount_is_rejected_and_leaves_no_trace() {
    let bank = Bank::open();
    let mut host = bank.host();
    let (payer_address, payer) = bank.customer(1000);
    let (payee_address, payee) = bank.customer(0);
    let mut system = HealthPaymentSystem::new();

    for amount in [0, -1, -400, i128::MIN] {
        let result =
            system.execute_payment(&mut host, payer, payee, amount, String::from("x"), NOW);
        assert_eq!(result, Err(PaymentError::InvalidAmount));
    }
    assert_eq!(system.ledger().len(), 0);
    assert_eq!(bank.balance(&payer_address), 1000);
    assert_eq!(bank.balance(&payee_address), 0);
}

#[test]
fn a_refused_payment_is_recorded_as_rejected_and_returned_as_the_error() {
    let bank = Bank::open();
    let mut host = bank.host();
    let (payer_address, payer) = bank.customer(15);
    let (payee_address, payee) = bank.customer(0);
    let mut system = HealthPaymentSystem::new();

    let result = system.execute_payment(&mut host, payer, payee, 20, String::from("rent"), NOW);

    let error = result.unwrap_err();
    let reason = reason_of(&error);
    assert!(!reason.is_empty());
    assert_eq!(
        system.ledger().records(),
        &vec![TransferRecord {
            payer,
            payee,
            amount: 20,
            message: String::from("rent"),
            timestamp: NOW,
            outcome: TransferOutcome::Rejected,
            reason: Some(reason),
        }]
    );
    assert_eq!(bank.balance(&payer_address), 15);
    assert_eq!(bank.balance(&payee_address), 0);
}

#[test]
fn a_rejected_request_is_rejected_again_in_the_same_way() {
    let bank = Bank::open();
    let mut host = bank.host();
    let (_, payer) = bank.customer(1000);
    let (_, payee) = bank.customer(0);
    let mut system = HealthPaymentSystem::new();
    system.execute_payment(&mut host, payer, payee, 1, String::from("seed"), NOW).unwrap();

    for _ in 0..3 {
        assert_eq!(
            system.execute_payment(&mut host, payer, payee, 0, String::from("x"), NOW),
            Err(PaymentError::InvalidAmount)
        );
        let bulk = system.execute_bulk_payment(&mut host, payer, &vec![payee], &vec![], NOW);
        assert_eq!(
            bulk,
            Err(BulkFailure { error: PaymentError::LengthMismatch, committed: vec![] })
        );
        assert_eq!(
            system.schedule_payment(payer, payee, 5, 0, NOW),
            Err(PaymentError::InvalidInterval)
        );
        assert_eq!(system.ledger().len(), 1);
        assert_eq!(system.registry().len(), 0);
    }
}

#[test]
fn the_history_of_a_payer_grows_by_one_record_per_payment() {
    let bank = Bank::open();
    let mut host = bank.host();
    let (_, payer) = bank.customer(1000);
    let (_, payee) = bank.customer(0);
    let (_, other) = bank.customer(1000);
    let mut system = HealthPaymentSystem::new();

    system.execute_payment(&mut host, other, payee, 5, String::from("other"), NOW).unwrap();
    for n in 1..=4u64 {
        let paid = system
            .execute_payment(&mut host, payer, payee, n as i128, String::from("p"), NOW + n)
            .unwrap();
        let history = system.view_transaction_history(&payer);
        assert_eq!(history.len(), n as usize);
        assert_eq!(history[0], paid);
    }
    let history = system.view_transaction_history(&payer);
    let amounts: Vec<i128> = history.iter().map(|r| r.amount).collect();
    assert_eq!(amounts, vec![4, 3, 2, 1]);
    let times: Vec<u64> = history.iter().map(|r| r.timestamp).collect();
    assert_eq!(times, vec![NOW + 4, NOW + 3, NOW + 2, NOW + 1]);
    assert_eq!(system.ledger().records()[0].amount, 5);
    assert_eq!(system.view_transaction_history(&payee).len(), 5);
}

#[test]
fn a_bulk_payment_with_lists_of_different_lengths_changes_nothing() {
    let bank = Bank::open();
    let mut host = bank.host();
    let (payer_address, payer) = bank.customer(1000);
    let (a_address, a) = bank.customer(0);
    let (_, b) = bank.customer(0);
    let mut system = HealthPaymentSystem::new();

    let result = system.execute_bulk_payment(&mut host, payer, &vec![a, b], &vec![10], NOW);
    assert_eq!(result, Err(BulkFailure { error: PaymentError::LengthMismatch, committed: vec![] }));
    let result = system.execute_bulk_payment(&mut host, payer, &vec![a], &vec![10, -20], NOW);
    assert_eq!(result, Err(BulkFailure { error: PaymentError::LengthMismatch, committed: vec![] }));
    assert_eq!(system.ledger().len(), 0);
    assert_eq!(bank.balance(&payer_address), 1000);
    assert_eq!(bank.balance(&a_address), 0);
}

#[test]
fn a_bulk_payment_with_one_invalid_amount_pays_nobody() {
    let bank = Bank::open();
    let mut host = bank.host();
    let (payer_address, payer) = bank.customer(1000);
    let (a_address, a) = bank.customer(0);
    let (b_address, b) = bank.customer(0);
    let (c_address, c) = bank.customer(0);
    let mut system = HealthPaymentSystem::new();

    let result =
        system.execute_bulk_payment(&mut host, payer, &vec![a, b, c], &vec![10, 20, 0], NOW);
    assert_eq!(result, Err(BulkFailure { error: PaymentError::InvalidAmount, committed: vec![] }));
    let result =
        system.execute_bulk_payment(&mut host, payer, &vec![a, b, c], &vec![10, -20, 30], NOW);
    assert_eq!(result, Err(BulkFailure { error: PaymentError::InvalidAmount, committed: vec![] }));
    assert_eq!(system.ledger().len(), 0);
    assert_eq!(bank.balance(&payer_address), 1000);
    assert_eq!(bank.balance(&a_address), 0);
    assert_eq!(bank.balance(&b_address), 0);
    assert_eq!(bank.balance(&c_address), 0);
}

#[test]
fn a_bulk_payment_pays_every_entry_in_order() {
    let bank = Bank::open();
    let mut host = bank.host();
    let (payer_address, payer) = bank.customer(1000);
    let (a_address, a) = bank.customer(0);
    let (b_address, b) = bank.customer(0);
    let mut system = HealthPaymentSystem::new();

    let records = system
        .execute_bulk_payment(&mut host, payer, &vec![a, b, a], &vec![10, 20, 30], NOW)
        .unwrap();

    let expected: Vec<TransferRecord> = [(a, 10), (b, 20), (a, 30)]
        .iter()
        .map(|(payee, amount)| TransferRecord {
            payer,
            payee: *payee,
            amount: *amount,
            message: String::from("Bulk payment"),
            timestamp: NOW,
            outcome: TransferOutcome::Committed,
            reason: None,
        })
        .collect();
    assert_eq!(records, expected);
    assert_eq!(system.ledger().records(), &expected);
    assert_eq!(bank.balance(&payer_address), 940);
    assert_eq!(bank.balance(&a_address), 40);
    assert_eq!(bank.balance(&b_address), 20);
}

#[test]
fn an_empty_bulk_payment_succeeds_with_no_records() {
    let bank = Bank::open();
    let mut host = bank.host();
    let (_, payer) = bank.customer(1000);
    let mut system = HealthPaymentSystem::new();
    assert_eq!(system.execute_bulk_payment(&mut host, payer, &vec![], &vec![], NOW), Ok(vec![]));
    assert_eq!(system.ledger().len(), 0);
}

#[test]
fn a_bulk_payment_stops_at_the_first_refusal() {
    let bank = Bank::open();
    let mut host = bank.host();
    let (payer_address, payer) = bank.customer(15);
    let (a_address, a) = bank.customer(0);
    let (b_address, b) = bank.customer(0);
    let (c_address, c) = bank.customer(0);
    let mut system = HealthPaymentSystem::new();

    let failure = system
        .execute_bulk_payment(&mut host, payer, &vec![a, b, c], &vec![10, 20, 30], NOW)
        .unwrap_err();

    let for_a = TransferRecord {
        payer,
        payee: a,
        amount: 10,
        message: String::from("Bulk payment"),
        timestamp: NOW,
        outcome: TransferOutcome::Committed,
        reason: None,
    };
    assert_eq!(failure.committed, vec![for_a.duplicate()]);
    let reason = reason_of(&failure.error);
    let for_b = TransferRecord {
        payer,
        payee: b,
        amount: 20,
        message: String::from("Bulk payment"),
        timestamp: NOW,
        outcome: TransferOutcome::Rejected,
        reason: Some(reason),
    };
    assert_eq!(system.ledger().records(), &vec![for_a, for_b]);
    assert!(system.view_transaction_history(&c).is_empty());
    assert_eq!(bank.balance(&payer_address), 5);
    assert_eq!(bank.balance(&a_address), 10);
    assert_eq!(bank.balance(&b_address), 0);
    assert_eq!(bank.balance(&c_address), 0);
}

#[test]
fn a_bulk_payment_refused_at_its_first_entry_commits_nothing() {
    let bank = Bank::open();
    let mut host = bank.host();
    let (_, payer) = bank.customer(5);
    let (a_address, a) = bank.customer(0);
    let (b_address, b) = bank.customer(0);
    let mut system = HealthPaymentSystem::new();

    let failure =
        system.execute_bulk_payment(&mut host, payer, &vec![a, b], &vec![10, 1], NOW).unwrap_err();
    assert!(failure.committed.is_empty());
    assert!(matches!(failure.error, PaymentError::TransferError(_)));
    assert_eq!(system.ledger().len(), 1);
    assert_eq!(system.ledger().records()[0].outcome, TransferOutcome::Rejected);
    assert_eq!(bank.balance(&a_address), 0);
    assert_eq!(bank.balance(&b_address), 0);
}

#[test]
fn schedule_bulk_payment_pays_the_batch_at_once() {
    let bank = Bank::open();
    let mut host = bank.host();
    let (payer_address, payer) = bank.customer(100);
    let (a_address, a) = bank.customer(0);
    let (b_address, b) = bank.customer(0);
    let mut system = HealthPaymentSystem::new();

    let records = system
        .schedule_bulk_payment(&mut host, payer, &vec![a, b], &vec![30, 20], DAY, NOW)
        .unwrap();
    assert_eq!(records.len(), 2);
    assert_eq!(records[0].payee, a);
    assert_eq!(records[1].payee, b);
    assert_eq!(bank.balance(&payer_address), 50);
    assert_eq!(bank.balance(&a_address), 30);
    assert_eq!(bank.balance(&b_address), 20);
    assert_eq!(system.registry().len(), 0);
    assert_eq!(
        system.schedule_bulk_payment(&mut host, payer, &vec![a], &vec![1, 2], DAY, NOW),
        Err(BulkFailure { error: PaymentError::LengthMismatch, committed: vec![] })
    );
}

#[test]
fn scheduling_registers_the_payment_one_period_ahead_and_moves_no_funds() {
    let bank = Bank::open();
    let (owner_address, owner) = bank.customer(1000);
    let (payee_address, payee) = bank.customer(0);
    let mut system = HealthPaymentSystem::new();

    let def = system.schedule_payment(owner, payee, 500, DAY, NOW);
    assert_eq!(
        def,
        Ok(ScheduleDefinition {
            id: 0,
            owner,
            payee,
            amount: 500,
            interval: DAY,
            next_due: 1_700_086_400,
            status: ScheduleStatus::Active,
        })
    );
    let second = system.schedule_payment(payee, owner, 1, 1, 0).unwrap();
    assert_eq!(second.id, 1);
    assert_eq!(second.next_due, 1);
    assert_eq!(system.registry().schedules(), &vec![def.unwrap(), second]);
    assert_eq!(system.ledger().len(), 0);
    assert_eq!(bank.balance(&owner_address), 1000);
    assert_eq!(bank.balance(&payee_address), 0);
}

#[test]
fn scheduling_rejects_invalid_amounts_and_intervals() {
    let bank = Bank::open();
    let (_, owner) = bank.customer(0);
    let (_, payee) = bank.customer(0);
    let mut system = HealthPaymentSystem::new();
    let rejected = Err(PaymentError::InvalidAmount);
    assert_eq!(system.schedule_payment(owner, payee, 0, DAY, NOW), rejected);
    assert_eq!(system.schedule_payment(owner, payee, -1, 0, NOW), rejected);
    assert_eq!(
        system.schedule_payment(owner, payee, 5, 0, NOW),
        Err(PaymentError::InvalidInterval)
    );
    assert_eq!(
        system.schedule_payment(owner, payee, 5, -DAY, NOW),
        Err(PaymentError::InvalidInterval)
    );
    assert_eq!(system.registry().len(), 0);
    assert_eq!(system.ledger().len(), 0);
}

#[test]
fn cancelling_needs_the_owner_and_an_existing_schedule() {
    let bank = Bank::open();
    let (_, owner) = bank.customer(0);
    let (_, payee) = bank.customer(0);
    let mut system = HealthPaymentSystem::new();
    let def = system.schedule_payment(owner, payee, 500, DAY, NOW).unwrap();

    assert_eq!(system.cancel_schedule(&owner, 1), Err(PaymentError::NotFound));
    assert_eq!(system.cancel_schedule(&payee, 0), Err(PaymentError::NotOwner));
    assert_eq!(system.registry().get(0), Some(def));
    assert_eq!(system.cancel_schedule(&owner, 0), Ok(()));
    assert_eq!(
        system.registry().get(0),
        Some(ScheduleDefinition { status: ScheduleStatus::Cancelled, ..def })
    );
    assert_eq!(system.ledger().len(), 0);
}

#[test]
fn a_committed_tick_moves_the_due_time_by_one_period_whatever_the_clock() {
    let bank = Bank::open();
    let mut host = bank.host();
    let (owner_address, owner) = bank.customer(1000);
    let (payee_address, payee) = bank.customer(0);
    let mut system = HealthPaymentSystem::new();
    let def = system.schedule_payment(owner, payee, 500, DAY, NOW).unwrap();
    let due = def.next_due;

    assert!(system.run_due_schedules(&mut host, due - 1).is_empty());
    assert_eq!(system.registry().get(0), Some(def));

    let late = due + 5000;
    let results = system.run_due_schedules(&mut host, late);
    assert_eq!(results.len(), 1);
    assert_eq!(results[0].as_ref().unwrap().timestamp, late);
    assert_eq!(
        system.registry().get(0),
        Some(ScheduleDefinition { next_due: due + DAY as u64, ..def })
    );
    assert_eq!(bank.balance(&owner_address), 500);
    assert_eq!(bank.balance(&payee_address), 500);

    assert!(system.run_due_schedules(&mut host, late).is_empty());
    let again = system.run_due_schedules(&mut host, due + DAY as u64);
    assert_eq!(again.len(), 1);
    assert_eq!(system.registry().get(0).unwrap().next_due, due + 2 * DAY as u64);
    assert_eq!(bank.balance(&payee_address), 1000);
}

#[test]
fn a_tick_at_the_due_time_itself_advances_to_due_time_plus_interval() {
    let bank = Bank::open();
    let mut host = bank.host();
    let (_, owner) = bank.customer(1000);
    let (_, payee) = bank.customer(0);
    let mut system = HealthPaymentSystem::new();
    let def = system.schedule_payment(owner, payee, 10, 60, 1000).unwrap();
    assert_eq!(def.next_due, 1060);
    let results = system.run_due_schedules(&mut host, 1060);
    assert!(results[0].is_ok());
    assert_eq!(system.registry().get(0).unwrap().next_due, 1120);
}

#[test]
fn a_refused_tick_leaves_the_due_time_and_is_tried_again() {
    let bank = Bank::open();
    let mut host = bank.host();
    let (owner_address, owner) = bank.customer(100);
    let (payee_address, payee) = bank.customer(0);
    let mut system = HealthPaymentSystem::new();
    let def = system.schedule_payment(owner, payee, 500, DAY, NOW).unwrap();
    let due = def.next_due;

    let results = system.run_due_schedules(&mut host, due);
    assert_eq!(results.len(), 1);
    let reason = reason_of(results[0].as_ref().unwrap_err());
    assert_eq!(system.registry().get(0), Some(def));
    assert_eq!(
        system.ledger().records(),
        &vec![TransferRecord {
            payer: owner,
            payee,
            amount: 500,
            message: String::from("Scheduled payment"),
            timestamp: due,
            outcome: TransferOutcome::Rejected,
            reason: Some(reason),
        }]
    );
    assert_eq!(bank.balance(&payee_address), 0);

    StellarAssetClient::new(&bank.env, &bank.token).mint(&owner_address, &400);
    let results = system.run_due_schedules(&mut host, due + 7);
    assert!(results[0].is_ok());
    assert_eq!(system.registry().get(0).unwrap().next_due, due + DAY as u64);
    assert_eq!(bank.balance(&payee_address), 500);
    assert_eq!(system.ledger().len(), 2);
}

#[test]
fn a_cancelled_schedule_is_not_served_however_late() {
    let bank = Bank::open();
    let mut host = bank.host();
    let (owner_address, owner) = bank.customer(1000);
    let (_, payee) = bank.customer(0);
    let mut system = HealthPaymentSystem::new();
    let def = system.schedule_payment(owner, payee, 500, DAY, NOW).unwrap();
    assert_eq!(def.status, ScheduleStatus::Active);
    system.cancel_schedule(&owner, def.id).unwrap();
    assert_eq!(system.registry().get(def.id).unwrap().status, ScheduleStatus::Cancelled);

    assert!(system.run_due_schedules(&mut host, def.next_due).is_empty());
    assert!(system.run_due_schedules(&mut host, def.next_due + 1000 * DAY as u64).is_empty());
    assert_eq!(system.ledger().len(), 0);
    assert_eq!(bank.balance(&owner_address), 1000);
    assert_eq!(system.registry().get(def.id).unwrap().next_due, def.next_due);
}

#[test]
fn a_tick_serves_due_schedules_in_due_order_and_goes_on_after_a_refusal() {
    let bank = Bank::open();
    let mut host = bank.host();
    let (_, rich) = bank.customer(1000);
    let (_, poor) = bank.customer(0);
    let (payee_address, payee) = bank.customer(0);
    let mut system = HealthPaymentSystem::new();
    system.schedule_payment(rich, payee, 1, 300, 0).unwrap();
    system.schedule_payment(poor, payee, 2, 100, 0).unwrap();
    system.schedule_payment(rich, payee, 3, 200, 0).unwrap();
    system.schedule_payment(rich, payee, 4, 100, 0).unwrap();
    system.schedule_payment(rich, payee, 5, 900, 0).unwrap();

    let results = system.run_due_schedules(&mut host, 300);
    assert_eq!(results.len(), 4);
    assert!(results[0].is_err());
    assert_eq!(results[1].as_ref().unwrap().amount, 4);
    assert_eq!(results[2].as_ref().unwrap().amount, 3);
    assert_eq!(results[3].as_ref().unwrap().amount, 1);
    let recorded: Vec<i128> = system.ledger().records().iter().map(|r| r.amount).collect();
    assert_eq!(recorded, vec![2, 4, 3, 1]);
    let due_times: Vec<u64> = system.registry().schedules().iter().map(|d| d.next_due).collect();
    assert_eq!(due_times, vec![600, 100, 400, 200, 900]);
    assert_eq!(bank.balance(&payee_address), 8);
}

#[test]
fn a_scheduled_payment_is_paid_once_when_due_and_shows_in_the_history() {
    let bank = Bank::open();
    let mut host = bank.host();
    let (x_address, x) = bank.customer(1000);
    let (y_address, y) = bank.customer(0);
    let mut system = HealthPaymentSystem::new();

    let def = system.schedule_payment(x, y, 500, 86400, NOW).unwrap();
    let results = system.run_due_schedules(&mut host, def.next_due);

    let expected = TransferRecord {
        payer: x,
        payee: y,
        amount: 500,
        message: String::from("Scheduled payment"),
        timestamp: def.next_due,
        outcome: TransferOutcome::Committed,
        reason: None,
    };
    assert_eq!(results, vec![Ok(expected.duplicate())]);
    assert_eq!(system.ledger().records(), &vec![expected.duplicate()]);
    assert_eq!(system.view_transaction_history(&x), vec![expected.duplicate()]);
    assert_eq!(system.view_transaction_history(&y), vec![expected]);
    assert_eq!(bank.balance(&x_address), 500);
    assert_eq!(bank.balance(&y_address), 500);
}

#[test]
fn the_balance_is_the_one_the_token_contract_holds() {
    let bank = Bank::open();
    let mut host = bank.host();
    let (_, payer) = bank.customer(1000);
    let (_, payee) = bank.customer(0);
    let mut system = HealthPaymentSystem::new();
    assert_eq!(system.check_balance(&mut host, &payer), Ok(1000));
    assert_eq!(system.check_balance(&mut host, &payee), Ok(0));
    system.execute_payment(&mut host, payer, payee, 250, String::from("x"), NOW).unwrap();
    assert_eq!(system.check_balance(&mut host, &payer), Ok(750));
    assert_eq!(system.check_balance(&mut host, &payee), Ok(250));
}

#[test]
fn a_balance_query_that_the_service_refuses_is_a_transfer_error() {
    let bank = Bank::open();
    let nowhere = Address::generate(&bank.env);
    let mut host = PaymentHost::new(bank.env.clone(), &account_of(&nowhere)).unwrap();
    let (_, user) = bank.customer(10);
    let system = HealthPaymentSystem::new();
    let result = system.check_balance(&mut host, &user);
    assert!(matches!(result, Err(PaymentError::TransferError(_))));
}

#[test]
fn a_balance_answer_is_passed_on_and_a_refusal_becomes_a_transfer_error() {
    assert_eq!(balance_answer(Ok(1000)), Ok(1000));
    assert_eq!(balance_answer(Ok(-3)), Ok(-3));
    assert_eq!(
        balance_answer(Err(TransferFailure { reason: String::from("no such contract") })),
        Err(PaymentError::TransferError(String::from("no such contract")))
    );
}

#[test]
fn a_transfer_to_a_missing_token_contract_is_refused_and_recorded() {
    let bank = Bank::open();
    let nowhere = Address::generate(&bank.env);
    let mut host = PaymentHost::new(bank.env.clone(), &account_of(&nowhere)).unwrap();
    let (_, payer) = bank.customer(10);
    let (_, payee) = bank.customer(0);
    let mut system = HealthPaymentSystem::new();
    let result = system.execute_payment(&mut host, payer, payee, 5, String::from("x"), NOW);
    assert!(matches!(result, Err(PaymentError::TransferError(_))));
    assert_eq!(system.ledger().len(), 1);
    assert_eq!(system.ledger().records()[0].outcome, TransferOutcome::Rejected);
}

#[test]
fn a_contract_is_paid_and_a_wallet_unknown_to_the_token_is_refused() {
    let bank = Bank::open();
    let mut host = bank.host();
    let (_, payer) = bank.customer(100);
    let (contract_address, contract) = bank.customer(0);
    assert_eq!(contract.kind, AccountKind::Contract);
    let mut system = HealthPaymentSystem::new();
    system.execute_payment(&mut host, payer, contract, 60, String::from("x"), NOW).unwrap();
    assert_eq!(bank.balance(&contract_address), 60);
    let wallet = Account { kind: AccountKind::Wallet, key: [9; 32] };
    let refused = system.execute_payment(&mut host, payer, wallet, 10, String::from("x"), NOW);
    assert!(matches!(refused, Err(PaymentError::TransferError(_))));
    assert_eq!(system.check_balance(&mut host, &payer), Ok(40));
}

#[test]
fn the_history_is_served_in_pages() {
    let bank = Bank::open();
    let mut host = bank.host();
    let (_, payer) = bank.customer(1000);
    let (_, payee) = bank.customer(0);
    let mut system = HealthPaymentSystem::new();
    for n in 1..=5 {
        system.execute_payment(&mut host, payer, payee, n, String::from("p"), NOW).unwrap();
    }
    let first = system.transaction_history(&payer, 3, None);
    let amounts: Vec<i128> = first.records.iter().map(|r| r.amount).collect();
    assert_eq!(amounts, vec![5, 4, 3]);
    assert_eq!(first.next, Some(Cursor::at(2)));
    let second = system.transaction_history(&payer, 3, first.next);
    let amounts: Vec<i128> = second.records.iter().map(|r| r.amount).collect();
    assert_eq!(amounts, vec![2, 1]);
    assert_eq!(second.next, None);
}

#[test]
fn a_system_continues_from_its_parts() {
    let bank = Bank::open();
    let mut host = bank.host();
    let (_, payer) = bank.customer(1000);
    let (_, payee) = bank.customer(0);
    let mut system = HealthPaymentSystem::new();
    system.schedule_payment(payer, payee, 5, 60, 0).unwrap();
    system.execute_payment(&mut host, payer, payee, 7, String::from("p"), NOW).unwrap();

    let schedules = system.registry().schedules().clone();
    let records = system.ledger().records().clone();
    let registry = health_payment::registry::ScheduleRegistry::restore(schedules.clone()).unwrap();
    let ledger = health_payment::ledger::TransactionLedger::restore(records.clone());
    let mut resumed = HealthPaymentSystem::from_parts(registry, ledger);
    assert_eq!(resumed.registry().schedules(), &schedules);
    assert_eq!(resumed.ledger().records(), &records);
    let results = resumed.run_due_schedules(&mut host, 60);
    assert_eq!(results.len(), 1);
    assert_eq!(resumed.ledger().len(), 2);
}

#[test]
fn a_committed_payment_is_announced_and_a_rejected_one_is_not() {
    let bank = Bank::open();
    let mut host = bank.host();
    let (_, payer) = bank.customer(100);
    let (_, payee) = bank.customer(0);
    let mut system = HealthPaymentSystem::new();
    assert!(system.take_events().is_empty());

    system.execute_payment(&mut host, payer, payee, 60, String::from("hello"), NOW).unwrap();
    system.execute_payment(&mut host, payer, payee, 60, String::from("again"), NOW).unwrap_err();
    let _ = system.execute_payment(&mut host, payer, payee, 0, String::from("zero"), NOW);
    system.execute_payment(&mut host, payer, payee, 40, String::from("rest"), NOW).unwrap();

    assert_eq!(
        system.take_events(),
        vec![
            PaymentEvent { payee, amount: 60, message: String::from("hello") },
            PaymentEvent { payee, amount: 40, message: String::from("rest") },
        ]
    );
    assert!(system.take_events().is_empty());
    assert_eq!(system.ledger().len(), 3);
}

#[test]
fn a_bulk_payment_announces_each_committed_entry_in_order() {
    let bank = Bank::open();
    let mut host = bank.host();
    let (_, payer) = bank.customer(15);
    let (_, a) = bank.customer(0);
    let (_, b) = bank.customer(0);
    let (_, c) = bank.customer(0);
    let mut system = HealthPaymentSystem::new();

    system.execute_bulk_payment(&mut host, payer, &vec![a, b], &vec![1, 2], NOW).unwrap();
    system
        .execute_bulk_payment(&mut host, payer, &vec![a, b, c], &vec![10, 20, 30], NOW)
        .unwrap_err();
    system.execute_bulk_payment(&mut host, payer, &vec![a, b], &vec![1], NOW).unwrap_err();
    system.execute_bulk_payment(&mut host, payer, &vec![a, b], &vec![1, 0], NOW).unwrap_err();

    let bulk = |payee: Account, amount: i128| PaymentEvent {
        payee,
        amount,
        message: String::from("Bulk payment"),
    };
    assert_eq!(system.take_events(), vec![bulk(a, 1), bulk(b, 2), bulk(a, 10)]);
}

#[test]
fn a_tick_announces_the_payments_it_committed() {
    let bank = Bank::open();
    let mut host = bank.host();
    let (_, rich) = bank.customer(1000);
    let (_, poor) = bank.customer(0);
    let (_, payee) = bank.customer(0);
    let mut system = HealthPaymentSystem::new();
    system.schedule_payment(rich, payee, 5, 100, 0).unwrap();
    system.schedule_payment(poor, payee, 6, 100, 0).unwrap();
    system.schedule_payment(rich, payee, 7, 50, 0).unwrap();
    assert!(system.take_events().is_empty());

    system.run_due_schedules(&mut host, 100);

    let scheduled = |amount: i128| PaymentEvent {
        payee,
        amount,
        message: String::from("Scheduled payment"),
    };
    assert_eq!(system.take_events(), vec![scheduled(7), scheduled(5)]);
    system.cancel_schedule(&rich, 0).unwrap();
    assert!(system.take_events().is_empty());
}

#[test]
fn only_a_contract_can_be_the_token() {
    let bank = Bank::open();
    let wallet = Account { kind: AccountKind::Wallet, key: [3; 32] };
    assert!(PaymentHost::new(bank.env.clone(), &wallet).is_none());
    let contract = Account { kind: AccountKind::Contract, key: [3; 32] };
    assert!(PaymentHost::new(bank.env.clone(), &contract).is_some());
    assert!(PaymentHost::new(bank.env.clone(), &account_of(&bank.token)).is_some());
}

#[test]
fn the_transfer_service_refuses_what_the_token_contract_refuses() {
    let bank = Bank::open();
    let mut host = bank.host();
    let (payer_address, payer) = bank.customer(50);
    let (payee_address, payee) = bank.customer(0);
    assert_eq!(host.transfer(&payer, &payee, 20), Ok(()));
    assert!(host.transfer(&payer, &payee, 31).is_err());
    assert!(host.transfer(&payer, &payee, -1).is_err());
    assert!(host.transfer(&payer, &payee, i128::MAX).is_err());
    assert_eq!(host.transfer(&payer, &payee, 30), Ok(()));
    assert_eq!(bank.balance(&payer_address), 0);
    assert_eq!(bank.balance(&payee_address), 50);
}
