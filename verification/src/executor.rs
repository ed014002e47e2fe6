//! The payment executor.
//!
//! [`HealthPaymentSystem`] owns the schedule registry and the transaction
//! ledger and carries out one-time, bulk and recurring payments on them. The
//! transfers themselves are made by the transfer service, through a
//! [`PaymentHost`]; what the service answers decides what is recorded. The
//! rule throughout: a request that fails its admission check changes nothing
//! and reaches nobody, and a transfer that reached the service is recorded
//! exactly once, committed or rejected.
//!
//! Each operation is specified by a relation between the state before it, the
//! state after it, its arguments and its result: [`payment_effect`],
//! [`bulk_effect`], [`schedule_effect`], [`cancel_effect`] and
//! [`due_run_effect`]. The state is the system's view and the log of what has
//! been asked of the transfer service.
//!
//! The core does not publish events itself. It queues the announcement of
//! each committed transfer in its outbox, and whoever drives the core hands
//! the outbox to the event publisher ([`HealthPaymentSystem::take_events`]).
//! Whether publishing succeeds has no bearing on the ledger.

use vstd::prelude::*;
use crate::account::Account;
use crate::error::{ErrorView, PaymentError, TransferFailure};
use crate::host::{BalanceQuery, PaymentHost, TransferAttempt};
use crate::ledger::{
    announcements, at_most, event_views, history_of, involves, lemma_announcements_of_one,
    lemma_announcements_push, payment_result, record_views, result_view, resume_point,
    settlement, Cursor, EventView, HistoryPage, PaymentEvent, RecordView, TransactionLedger,
    TransferRecord,
};
use crate::registry::{
    can_serve, cancel_verdict, cancelled, created, due_before, due_list, is_due, is_due_list,
    lemma_due_list_is_unique, schedules_are_sound, served, ScheduleDefinition, ScheduleRegistry,
};
use crate::validator::{
    all_amounts_valid, amount_is_valid, bulk_verdict, schedule_verdict, validate_amount,
    validate_bulk, validate_schedule,
};

verus! {

/// The mathematical content of a [`HealthPaymentSystem`].
#[verifier::ext_equal]
pub struct SystemView {
    /// The schedules of the registry, in the order of their creation.
    pub schedules: Seq<ScheduleDefinition>,
    /// The records of the ledger, oldest first.
    pub records: Seq<RecordView>,
    /// The announcements that wait to be handed to the event publisher,
    /// oldest first.
    pub outbox: Seq<EventView>,
}

/// How a bulk payment that met a refusal ended: the error, and the records of
/// the entries that had been committed before it. A request that failed its
/// admission check has committed nothing.
#[derive(Clone, Debug, PartialEq, Eq)]
pub struct BulkFailure {
    pub error: PaymentError,
    pub committed: Vec<TransferRecord>,
}

/// The mathematical content of a [`BulkFailure`].
#[verifier::ext_equal]
pub struct FailedBulkView {
    pub error: ErrorView,
    pub committed: Seq<RecordView>,
}

impl View for BulkFailure {
    type V = FailedBulkView;

    open spec fn view(&self) -> FailedBulkView {
        FailedBulkView { error: self.error@, committed: record_views(self.committed@) }
    }
}

/// The view of what a bulk payment returned.
pub open spec fn bulk_view(result: Result<Vec<TransferRecord>, BulkFailure>) -> Result<
    Seq<RecordView>,
    FailedBulkView,
> {
    match result {
        Ok(records) => Ok(record_views(records@)),
        Err(failure) => Err(failure@),
    }
}

/// The views of what a tick of the scheduler returned.
pub open spec fn result_views(results: Seq<Result<TransferRecord, PaymentError>>) -> Seq<
    Result<RecordView, ErrorView>,
> {
    results.map_values(|result: Result<TransferRecord, PaymentError>| result_view(result))
}

/// The record that settles an attempt, with the given message and time.
pub open spec fn settlement_of(attempt: TransferAttempt, message: Seq<char>, timestamp: u64)
    -> RecordView {
    settlement(attempt.from, attempt.to, attempt.amount, message, timestamp, attempt.refusal)
}

/// The records that settle a run of attempts, one for one and in the same
/// order.
pub open spec fn settlements(made: Seq<TransferAttempt>, message: Seq<char>, timestamp: u64) -> Seq<
    RecordView,
> {
    made.map_values(|attempt: TransferAttempt| settlement_of(attempt, message, timestamp))
}

/// What has been asked of the transfer service since its log read `before`.
pub open spec fn asked_since(before: Seq<TransferAttempt>, after: Seq<TransferAttempt>) -> Seq<
    TransferAttempt,
> {
    after.skip(before.len() as int)
}

/// The message on the records of a bulk payment.
pub open spec fn bulk_message() -> Seq<char> {
    "Bulk payment"@
}

/// The message on the records of a scheduled payment.
pub open spec fn scheduled_message() -> Seq<char> {
    "Scheduled payment"@
}

/// What a one-time payment does.
///
/// An amount that is zero or negative is rejected with `InvalidAmount`: the
/// transfer service is not asked and nothing is recorded. Otherwise the
/// service is asked exactly once, for this transfer, and its answer is
/// recorded: the result is the committed record, or the service's refusal,
/// which is on record as rejected. A committed payment is announced, a
/// rejected one is not. Schedules are not touched either way.
pub open spec fn payment_effect(
    before: SystemView,
    after: SystemView,
    asked_before: Seq<TransferAttempt>,
    asked_after: Seq<TransferAttempt>,
    payer: Account,
    payee: Account,
    amount: i128,
    message: Seq<char>,
    now: u64,
    result: Result<RecordView, ErrorView>,
) -> bool {
    &&& after.schedules == before.schedules
    &&& if amount_is_valid(amount) {
        let attempt = asked_after.last();
        let record = settlement_of(attempt, message, now);
        &&& asked_after == asked_before.push(attempt)
        &&& attempt.from == payer
        &&& attempt.to == payee
        &&& attempt.amount == amount
        &&& after.records == before.records.push(record)
        &&& after.outbox == before.outbox + announcements(seq![record])
        &&& result == payment_result(record)
    } else {
        &&& result == Err::<RecordView, ErrorView>(ErrorView::InvalidAmount)
        &&& after.records == before.records
        &&& after.outbox == before.outbox
        &&& asked_after == asked_before
    }
}

/// `made` is what a bulk payment may ask of the transfer service: the
/// entries of the batch, one after the other from the first, each from
/// `payer`; it goes on only while the service commits, so only the last
/// attempt can have been refused; and it stops short of the end of the batch
/// only on a refusal.
pub open spec fn is_fail_fast_run(
    payer: Account,
    payees: Seq<Account>,
    amounts: Seq<i128>,
    made: Seq<TransferAttempt>,
) -> bool {
    &&& made.len() <= payees.len()
    &&& forall|k: int|
        0 <= k < made.len() ==> {
            &&& (#[trigger] made[k]).from == payer
            &&& made[k].to == payees[k]
            &&& made[k].amount == amounts[k]
        }
    &&& forall|k: int| 0 <= k < made.len() - 1 ==> (#[trigger] made[k]).refusal is None
    &&& made.len() < payees.len() ==> made.len() > 0 && made.last().refusal is Some
}

/// What a bulk payment does.
///
/// The request is admitted only if the two lists have the same length and
/// every amount is positive; a request that is not admitted changes nothing
/// and reaches nobody. An admitted request is a fail-fast run over the batch,
/// in which every attempt is recorded. If every entry was committed, the
/// result is the list of their records. Otherwise the run ended on a refusal:
/// the result is that refusal, with the records of the entries committed
/// before it. Each committed entry is announced. Schedules are not touched.
pub open spec fn bulk_effect(
    before: SystemView,
    after: SystemView,
    asked_before: Seq<TransferAttempt>,
    asked_after: Seq<TransferAttempt>,
    payer: Account,
    payees: Seq<Account>,
    amounts: Seq<i128>,
    now: u64,
    result: Result<Seq<RecordView>, FailedBulkView>,
) -> bool {
    let made = asked_since(asked_before, asked_after);
    let written = settlements(made, bulk_message(), now);
    &&& after.schedules == before.schedules
    &&& match bulk_verdict(payees.len(), amounts) {
        Err(error) => {
            &&& result == Err::<Seq<RecordView>, FailedBulkView>(
                FailedBulkView { error: error@, committed: Seq::empty() },
            )
            &&& after.records == before.records
            &&& after.outbox == before.outbox
            &&& asked_after == asked_before
        },
        Ok(_) => {
            &&& asked_after == asked_before + made
            &&& is_fail_fast_run(payer, payees, amounts, made)
            &&& after.records == before.records + written
            &&& after.outbox == before.outbox + announcements(written)
            &&& result == if made.len() > 0 && made.last().refusal is Some {
                Err::<Seq<RecordView>, FailedBulkView>(
                    FailedBulkView {
                        error: ErrorView::TransferError(made.last().refusal->0),
                        committed: written.drop_last(),
                    },
                )
            } else {
                Ok::<Seq<RecordView>, FailedBulkView>(written)
            }
        },
    }
}

/// What registering a recurring payment does.
///
/// The amount is checked first, then the period; a rejected request leaves
/// the registry as it was. An admitted one appends an active schedule that is
/// first due one period after `now`, and returns it. No funds move and
/// nothing is recorded either way.
pub open spec fn schedule_effect(
    before: SystemView,
    after: SystemView,
    owner: Account,
    payee: Account,
    amount: i128,
    interval: i64,
    now: u64,
    result: Result<ScheduleDefinition, PaymentError>,
) -> bool {
    &&& after.records == before.records
    &&& after.outbox == before.outbox
    &&& match schedule_verdict(amount, interval) {
        Err(error) => {
            &&& result == Err::<ScheduleDefinition, PaymentError>(error)
            &&& after.schedules == before.schedules
        },
        Ok(_) => {
            let def = created(
                before.schedules.len(),
                owner,
                payee,
                amount,
                interval,
                (now + interval) as u64,
            );
            &&& result == Ok::<ScheduleDefinition, PaymentError>(def)
            &&& after.schedules == before.schedules.push(def)
        },
    }
}

/// What cancelling a schedule does.
///
/// It fails with `NotFound` when no schedule has the id and with `NotOwner`
/// when the schedule belongs to another account; either way nothing changes.
/// Otherwise the schedule is cancelled from now on, and nothing else is
/// different. The ledger is not touched.
pub open spec fn cancel_effect(
    before: SystemView,
    after: SystemView,
    owner: Account,
    schedule_id: u64,
    result: Result<(), PaymentError>,
) -> bool {
    &&& after.records == before.records
    &&& after.outbox == before.outbox
    &&& result == cancel_verdict(before.schedules, owner, schedule_id)
    &&& after.schedules == if result is Ok {
        before.schedules.update(
            schedule_id as int,
            cancelled(before.schedules[schedule_id as int]),
        )
    } else {
        before.schedules
    }
}

/// What one tick of the scheduler does.
///
/// The schedules due at `now` are served in due order, each with one attempt
/// to pay its amount from its owner to its payee. Every attempt is recorded,
/// every committed payment is announced, and the results answer the due list
/// one for one. A schedule whose payment was committed is due again exactly
/// one period after its old due time; one whose payment was refused keeps its
/// due time, and is due again at the next tick. All other schedules, the
/// cancelled among them, stay as they were.
pub open spec fn due_run_effect(
    before: SystemView,
    after: SystemView,
    asked_before: Seq<TransferAttempt>,
    asked_after: Seq<TransferAttempt>,
    now: u64,
    results: Seq<Result<RecordView, ErrorView>>,
) -> bool {
    let due = due_list(before.schedules, now);
    let made = asked_since(asked_before, asked_after);
    let written = settlements(made, scheduled_message(), now);
    &&& asked_after == asked_before + made
    &&& made.len() == due.len()
    &&& forall|k: int|
        0 <= k < due.len() ==> {
            &&& (#[trigger] made[k]).from == due[k].owner
            &&& made[k].to == due[k].payee
            &&& made[k].amount == due[k].amount
        }
    &&& after.records == before.records + written
    &&& after.outbox == before.outbox + announcements(written)
    &&& results.len() == due.len()
    &&& forall|k: int| 0 <= k < due.len() ==> #[trigger] results[k] == payment_result(written[k])
    &&& after.schedules.len() == before.schedules.len()
    &&& forall|k: int|
        0 <= k < due.len() ==> after.schedules[(#[trigger] due[k]).id as int] == served(
            due[k],
            made[k].refusal is None,
        )
    &&& forall|i: int|
        0 <= i < before.schedules.len() && !is_due(#[trigger] before.schedules[i], now)
            ==> after.schedules[i] == before.schedules[i]
}

/// What the caller of a balance query gets for the transfer service's
/// answer: the balance as it is, a refusal as a `TransferError` with the
/// service's reason.
pub open spec fn balance_result(answer: Result<i128, TransferFailure>) -> Result<i128, ErrorView> {
    match answer {
        Ok(balance) => Ok(balance),
        Err(failure) => Err(ErrorView::TransferError(failure.reason@)),
    }
}

/// What the caller of a balance query gets for a logged query: the balance
/// that the service answered, or its refusal as a `TransferError`.
pub open spec fn query_result(query: BalanceQuery) -> Result<i128, ErrorView> {
    match query.answer {
        Ok(balance) => Ok(balance),
        Err(reason) => Err(ErrorView::TransferError(reason)),
    }
}

/// The view of what a balance query returned.
pub open spec fn balance_view(result: Result<i128, PaymentError>) -> Result<i128, ErrorView> {
    match result {
        Ok(balance) => Ok(balance),
        Err(error) => Err(error@),
    }
}

/// Turns the transfer service's answer to a balance query into the caller's
/// result.
pub fn balance_answer(answer: Result<i128, TransferFailure>) -> (result: Result<
    i128,
    PaymentError,
>)
    ensures
        balance_view(result) == balance_result(answer),
{
    match answer {
        Ok(balance) => Ok(balance),
        Err(failure) => Err(PaymentError::TransferError(failure.reason)),
    }
}

/// The payment core: the registry of recurring payments and the ledger of
/// settled transfers.
pub struct HealthPaymentSystem {
    registry: ScheduleRegistry,
    ledger: TransactionLedger,
    outbox: Vec<PaymentEvent>,
}

impl View for HealthPaymentSystem {
    type V = SystemView;

    closed spec fn view(&self) -> SystemView {
        SystemView {
            schedules: self.registry@,
            records: self.ledger@,
            outbox: event_views(self.outbox@),
        }
    }
}

impl HealthPaymentSystem {
    /// A system with no schedules, an empty ledger and nothing to announce.
    pub fn new() -> (system: HealthPaymentSystem)
        ensures
            system@ == (SystemView {
                schedules: Seq::empty(),
                records: Seq::empty(),
                outbox: Seq::empty(),
            }),
    {
        let outbox: Vec<PaymentEvent> = Vec::new();
        assert(event_views(outbox@) =~= Seq::<EventView>::empty());
        HealthPaymentSystem {
            registry: ScheduleRegistry::new(),
            ledger: TransactionLedger::new(),
            outbox,
        }
    }

    /// A system that continues from a registry and a ledger, with nothing to
    /// announce.
    pub fn from_parts(registry: ScheduleRegistry, ledger: TransactionLedger) -> (system:
        HealthPaymentSystem)
        ensures
            system@ == (SystemView {
                schedules: registry@,
                records: ledger@,
                outbox: Seq::empty(),
            }),
    {
        let outbox: Vec<PaymentEvent> = Vec::new();
        assert(event_views(outbox@) =~= Seq::<EventView>::empty());
        HealthPaymentSystem { registry, ledger, outbox }
    }

    /// Hands out the announcements that wait in the outbox, oldest first, and
    /// leaves the outbox empty. Nothing else changes.
    pub fn take_events(&mut self) -> (events: Vec<PaymentEvent>)
        ensures
            event_views(events@) == old(self)@.outbox,
            final(self)@ == (SystemView { outbox: Seq::empty(), ..old(self)@ }),
    {
        let mut events: Vec<PaymentEvent> = Vec::new();
        core::mem::swap(&mut self.outbox, &mut events);
        assert(event_views(self.outbox@) =~= Seq::<EventView>::empty());
        events
    }

    /// The schedule registry, for reading.
    pub fn registry(&self) -> (registry: &ScheduleRegistry)
        ensures
            registry@ == self@.schedules,
    {
        &self.registry
    }

    /// The transaction ledger, for reading.
    pub fn ledger(&self) -> (ledger: &TransactionLedger)
        ensures
            ledger@ == self@.records,
    {
        &self.ledger
    }

    /// Pays `amount` from `payer` to `payee`, once: see [`payment_effect`].
    pub fn execute_payment(
        &mut self,
        host: &mut PaymentHost,
        payer: Account,
        payee: Account,
        amount: i128,
        message: String,
        now: u64,
    ) -> (result: Result<TransferRecord, PaymentError>)
        ensures
            payment_effect(
                old(self)@,
                final(self)@,
                old(host).attempts(),
                final(host).attempts(),
                payer,
                payee,
                amount,
                message@,
                now,
                result_view(result),
            ),
    {
        match validate_amount(amount) {
            Err(error) => Err(error),
            Ok(_) => {
                let outcome = host.transfer(&payer, &payee, amount);
                let record = TransferRecord::settled(payer, payee, amount, message, now, &outcome);
                self.ledger.record(record.duplicate());
                let ghost queued = self.outbox@;
                match record.event() {
                    Some(event) => {
                        self.outbox.push(event);
                        assert(event_views(self.outbox@) =~= event_views(queued).push(event@));
                    },
                    None => {},
                }
                proof {
                    lemma_announcements_of_one(record@);
                    assert(self@.outbox =~= old(self)@.outbox + announcements(seq![record@]));
                }
                record.into_result()
            },
        }
    }

    /// Pays each `amounts[i]` from `payer` to `payees[i]`, in the order of
    /// the lists, and stops at the first transfer that the service refuses:
    /// see [`bulk_effect`]. Transfers committed before a refusal stay
    /// committed, and come back with the error.
    pub fn execute_bulk_payment(
        &mut self,
        host: &mut PaymentHost,
        payer: Account,
        payees: &Vec<Account>,
        amounts: &Vec<i128>,
        now: u64,
    ) -> (result: Result<Vec<TransferRecord>, BulkFailure>)
        ensures
            bulk_effect(
                old(self)@,
                final(self)@,
                old(host).attempts(),
                final(host).attempts(),
                payer,
                payees@,
                amounts@,
                now,
                bulk_view(result),
            ),
    {
        let ghost asked_before = host.attempts();
        let ghost records_before = self@.records;
        let ghost outbox_before = self@.outbox;
        match validate_bulk(payees, amounts) {
            Err(error) => {
                let committed: Vec<TransferRecord> = Vec::new();
                assert(record_views(committed@) =~= Seq::<RecordView>::empty());
                Err(BulkFailure { error, committed })
            },
            Ok(_) => {
                let mut committed: Vec<TransferRecord> = Vec::new();
                let ghost mut made: Seq<TransferAttempt> = Seq::empty();
                let mut i: usize = 0;
                assert(asked_before + made =~= asked_before);
                assert(records_before + settlements(made, bulk_message(), now)
                    =~= records_before);
                assert(record_views(committed@) =~= settlements(made, bulk_message(), now));
                assert(outbox_before + announcements(settlements(made, bulk_message(), now))
                    =~= outbox_before);
                while i < payees.len()
                    invariant
                        i <= payees@.len() == amounts@.len(),
                        all_amounts_valid(amounts@),
                        self@.schedules == old(self)@.schedules,
                        asked_before == old(host).attempts(),
                        records_before == old(self)@.records,
                        outbox_before == old(self)@.outbox,
                        made.len() == i,
                        host.attempts() == asked_before + made,
                        self@.outbox == outbox_before + announcements(
                            settlements(made, bulk_message(), now),
                        ),
                        forall|k: int|
                            0 <= k < i ==> {
                                &&& (#[trigger] made[k]).from == payer
                                &&& made[k].to == payees@[k]
                                &&& made[k].amount == amounts@[k]
                                &&& made[k].refusal is None
                            },
                        self@.records == records_before + settlements(made, bulk_message(), now),
                        record_views(committed@) == settlements(made, bulk_message(), now),
                    decreases payees@.len() - i,
                {
                    let ghost made_before = made;
                    let ghost committed_before = committed@;
                    let message = "Bulk payment".to_owned();
                    let result = self.execute_payment(
                        host,
                        payer,
                        payees[i],
                        amounts[i],
                        message,
                        now,
                    );
                    proof {
                        assert(amount_is_valid(amounts@[i as int]));
                        let attempt = host.attempts().last();
                        made = made_before.push(attempt);
                        assert(host.attempts() =~= asked_before + made);
                        assert(asked_since(asked_before, host.attempts()) =~= made);
                        assert(settlements(made, bulk_message(), now) =~= settlements(
                            made_before,
                            bulk_message(),
                            now,
                        ).push(settlement_of(attempt, bulk_message(), now)));
                        assert(self@.records =~= records_before + settlements(
                            made,
                            bulk_message(),
                            now,
                        ));
                        lemma_announcements_push(
                            settlements(made_before, bulk_message(), now),
                            settlement_of(attempt, bulk_message(), now),
                        );
                        lemma_announcements_of_one(settlement_of(attempt, bulk_message(), now));
                        assert(self@.outbox =~= outbox_before + announcements(
                            settlements(made, bulk_message(), now),
                        ));
                    }
                    match result {
                        Ok(record) => {
                            committed.push(record);
                            assert(record_views(committed@) =~= record_views(
                                committed_before,
                            ).push(record@));
                        },
                        Err(error) => {
                            assert(settlements(made, bulk_message(), now).drop_last()
                                =~= record_views(committed@));
                            return Err(BulkFailure { error, committed });
                        },
                    }
                    i = i + 1;
                }
                assert(asked_since(asked_before, host.attempts()) =~= made);
                Ok(committed)
            },
        }
    }

    /// A bulk payment under the name it has in the contract interface: the
    /// batch is paid at once, as by
    /// [`HealthPaymentSystem::execute_bulk_payment`]; `_interval` is accepted
    /// and not used.
    pub fn schedule_bulk_payment(
        &mut self,
        host: &mut PaymentHost,
        payer: Account,
        to: &Vec<Account>,
        amounts: &Vec<i128>,
        _interval: i64,
        now: u64,
    ) -> (result: Result<Vec<TransferRecord>, BulkFailure>)
        ensures
            bulk_effect(
                old(self)@,
                final(self)@,
                old(host).attempts(),
                final(host).attempts(),
                payer,
                to@,
                amounts@,
                now,
                bulk_view(result),
            ),
    {
        self.execute_bulk_payment(host, payer, to, amounts, now)
    }

    /// Registers a recurring payment of `amount` from `owner` to `payee`
    /// every `interval` seconds, first due one period after `now`: see
    /// [`schedule_effect`]. The first due time has to be a time that the
    /// clock can show, as it is for every `now` up to
    /// [`LATEST_CLOCK`](crate::registry::LATEST_CLOCK).
    pub fn schedule_payment(
        &mut self,
        owner: Account,
        payee: Account,
        amount: i128,
        interval: i64,
        now: u64,
    ) -> (result: Result<ScheduleDefinition, PaymentError>)
        requires
            schedule_verdict(amount, interval) is Ok ==> now + interval <= u64::MAX,
        ensures
            schedule_effect(old(self)@, final(self)@, owner, payee, amount, interval, now, result),
    {
        match validate_schedule(amount, interval) {
            Err(error) => Err(error),
            Ok(_) => {
                let next_due: u64 = now + interval as u64;
                self.registry.create(owner, payee, amount, interval, next_due)
            },
        }
    }

    /// Cancels the schedule `schedule_id` on behalf of `owner`: see
    /// [`cancel_effect`].
    pub fn cancel_schedule(&mut self, owner: &Account, schedule_id: u64) -> (result: Result<
        (),
        PaymentError,
    >)
        ensures
            cancel_effect(old(self)@, final(self)@, *owner, schedule_id, result),
    {
        self.registry.cancel(owner, schedule_id)
    }

    /// Serves the schedules that are due at `now`: see [`due_run_effect`].
    /// The due list is fixed before the first payment is attempted. The next
    /// due time of each due schedule has to be a time that the clock can
    /// show, as it is for every `now` up to
    /// [`LATEST_CLOCK`](crate::registry::LATEST_CLOCK).
    pub fn run_due_schedules(&mut self, host: &mut PaymentHost, now: u64) -> (results: Vec<
        Result<TransferRecord, PaymentError>,
    >)
        requires
            can_serve(old(self)@.schedules, now),
        ensures
            due_run_effect(
                old(self)@,
                final(self)@,
                old(host).attempts(),
                final(host).attempts(),
                now,
                result_views(results@),
            ),
    {
        proof {
            use_type_invariant(&self.registry);
        }
        let ghost asked_before = host.attempts();
        let ghost records_before = self@.records;
        let ghost outbox_before = self@.outbox;
        let ghost schedules_before = self@.schedules;
        let due = self.registry.due_schedules(now);
        let mut results: Vec<Result<TransferRecord, PaymentError>> = Vec::new();
        let ghost mut made: Seq<TransferAttempt> = Seq::empty();
        let mut k: usize = 0;
        assert(asked_before + made =~= asked_before);
        assert(records_before + settlements(made, scheduled_message(), now) =~= records_before);
        assert(outbox_before + announcements(settlements(made, scheduled_message(), now))
            =~= outbox_before);
        assert forall|j: int| 0 <= j < due@.len() implies self@.schedules[(#[trigger] due@[
            j
        ]).id as int] == due@[j] by {
            assert(schedules_before[due@[j].id as int] == due@[j]);
        }
        while k < due.len()
            invariant
                can_serve(schedules_before, now),
                k <= due@.len(),
                is_due_list(schedules_before, now, due@),
                schedules_are_sound(schedules_before),
                asked_before == old(host).attempts(),
                records_before == old(self)@.records,
                outbox_before == old(self)@.outbox,
                schedules_before == old(self)@.schedules,
                made.len() == k,
                host.attempts() == asked_before + made,
                self@.outbox == outbox_before + announcements(
                    settlements(made, scheduled_message(), now),
                ),
                forall|j: int|
                    0 <= j < k ==> {
                        &&& (#[trigger] made[j]).from == due@[j].owner
                        &&& made[j].to == due@[j].payee
                        &&& made[j].amount == due@[j].amount
                    },
                self@.records == records_before + settlements(made, scheduled_message(), now),
                results@.len() == k,
                forall|j: int|
                    0 <= j < k ==> result_view(#[trigger] results@[j]) == payment_result(
                        settlements(made, scheduled_message(), now)[j],
                    ),
                self@.schedules.len() == schedules_before.len(),
                forall|j: int|
                    0 <= j < k ==> self@.schedules[(#[trigger] due@[j]).id as int] == served(
                        due@[j],
                        made[j].refusal is None,
                    ),
                forall|j: int|
                    k <= j < due@.len() ==> self@.schedules[(#[trigger] due@[j]).id as int]
                        == due@[j],
                forall|i: int|
                    0 <= i < schedules_before.len() && !is_due(#[trigger] schedules_before[i], now)
                        ==> self@.schedules[i] == schedules_before[i],
            decreases due@.len() - k,
        {
            let def = due[k];
            let ghost made_before = made;
            let ghost results_before = results@;
            let ghost schedules_now = self@.schedules;
            proof {
                assert(schedules_before[def.id as int] == def);
                assert(def.amount > 0 && def.interval > 0);
            }
            let message = "Scheduled payment".to_owned();
            let result = self.execute_payment(
                host,
                def.owner,
                def.payee,
                def.amount,
                message,
                now,
            );
            let ghost attempt = host.attempts().last();
            proof {
                made = made_before.push(attempt);
                assert(host.attempts() =~= asked_before + made);
                assert(settlements(made, scheduled_message(), now) =~= settlements(
                    made_before,
                    scheduled_message(),
                    now,
                ).push(settlement_of(attempt, scheduled_message(), now)));
                assert(self@.records =~= records_before + settlements(
                    made,
                    scheduled_message(),
                    now,
                ));
                lemma_announcements_push(
                    settlements(made_before, scheduled_message(), now),
                    settlement_of(attempt, scheduled_message(), now),
                );
                lemma_announcements_of_one(settlement_of(attempt, scheduled_message(), now));
                assert(self@.outbox =~= outbox_before + announcements(
                    settlements(made, scheduled_message(), now),
                ));
            }
            if result.is_ok() {
                self.registry.advance(def.id);
            }
            results.push(result);
            proof {
                let k_int: int = k as int;
                assert forall|j: int| 0 <= j < due@.len() && j != k_int implies (
                #[trigger] due@[j]).id != def.id by {
                    if due@[j].id == def.id {
                        assert(schedules_before[due@[j].id as int] == due@[j]);
                        if j < k_int {
                            assert(due_before(due@[j], due@[k_int]));
                        } else {
                            assert(due_before(due@[k_int], due@[j]));
                        }
                    }
                }
                assert forall|j: int| 0 <= j < k + 1 implies result_view(
                    #[trigger] results@[j],
                ) == payment_result(settlements(made, scheduled_message(), now)[j]) by {
                    if j < k {
                        assert(results@[j] == results_before[j]);
                        assert(settlements(made, scheduled_message(), now)[j] == settlements(
                            made_before,
                            scheduled_message(),
                            now,
                        )[j]);
                    }
                }
                assert forall|j: int| 0 <= j < k + 1 implies self@.schedules[(
                #[trigger] due@[j]).id as int] == served(due@[j], made[j].refusal is None) by {
                    if j < k {
                        assert(made[j] == made_before[j]);
                        assert(schedules_now[due@[j].id as int] == served(
                            due@[j],
                            made_before[j].refusal is None,
                        ));
                    }
                }
                assert forall|i: int|
                    0 <= i < schedules_before.len() && !is_due(
                        #[trigger] schedules_before[i],
                        now,
                    ) implies self@.schedules[i] == schedules_before[i] by {
                    assert(schedules_now[i] == schedules_before[i]);
                }
            }
            k = k + 1;
        }
        proof {
            assert(asked_since(asked_before, host.attempts()) =~= made);
            lemma_due_list_is_unique(schedules_before, now, due@, due@);
            assert forall|j: int| 0 <= j < due@.len() implies #[trigger] result_views(results@)[j]
                == payment_result(settlements(made, scheduled_message(), now)[j]) by {
                assert(result_views(results@)[j] == result_view(results@[j]));
            }
        }
        results
    }

    /// The balance that the transfer service holds for `user`. The core keeps
    /// no balances of its own: it asks the service once, for this account,
    /// and hands on the answer, a refusal as a `TransferError` with the
    /// service's reason. No transfer is requested, and the system is not
    /// touched.
    pub fn check_balance(&self, host: &mut PaymentHost, user: &Account) -> (result: Result<
        i128,
        PaymentError,
    >)
        ensures
            final(host).token() == old(host).token(),
            final(host).attempts() == old(host).attempts(),
            ({
                let query = final(host).queries().last();
                &&& final(host).queries() == old(host).queries().push(query)
                &&& query.account == *user
                &&& balance_view(result) == query_result(query)
            }),
    {
        balance_answer(host.balance_of(user))
    }

    /// The whole history of `user`: every record in which the account is
    /// payer or payee, newest first.
    pub fn view_transaction_history(&self, user: &Account) -> (records: Vec<TransferRecord>)
        ensures
            record_views(records@) == history_of(self@.records, *user),
    {
        self.ledger.full_history(user)
    }

    /// One page of the history of `user`: at most `limit` records, newest
    /// first, from the newest record or from where `cursor` says. The page
    /// carries a cursor exactly when more of the history lies beyond it.
    pub fn transaction_history(
        &self,
        user: &Account,
        limit: usize,
        cursor: Option<Cursor>,
    ) -> (page: HistoryPage)
        ensures
            ({
                let start = resume_point(self@.records.len(), cursor) as int;
                let pending = history_of(self@.records.take(start), *user);
                &&& record_views(page.records@) == pending.take(
                    at_most(limit as nat, pending.len()) as int,
                )
                &&& page.next is None <==> pending.len() <= limit
                &&& page.next matches Some(next) ==> {
                    &&& 0 < next.remaining() <= start
                    &&& involves(self@.records[next.remaining() - 1], *user)
                    &&& history_of(self@.records.take(next.remaining() as int), *user)
                        == pending.skip(limit as int)
                }
            }),
    {
        self.ledger.history(user, limit, cursor)
    }
}

} // verus!
