//! Laws of the payment core.
//!
//! Each proof function here states a property that relates several
//! operations, or several runs of one, over the same models that the
//! operations' own contracts use.

use vstd::prelude::*;
use crate::account::Account;
use crate::error::{ErrorView, PaymentError};
use crate::executor::{
    asked_since, bulk_effect, bulk_message, cancel_effect, due_run_effect, payment_effect,
    schedule_effect, scheduled_message, settlement_of, settlements, FailedBulkView, SystemView,
};
use crate::host::TransferAttempt;
use crate::ledger::{history_of, involves, payment_result, RecordView, TransferOutcome};
use crate::registry::{
    advanced, can_serve, cancelled, due_list, is_due, lemma_due_list_exists,
    schedules_are_sound, ScheduleDefinition, ScheduleStatus, LATEST_CLOCK,
};
use crate::validator::{
    all_amounts_valid, amount_is_valid, amount_verdict, bulk_verdict, schedule_verdict,
};

verus! {

/// An amount that is zero or negative is rejected wherever it enters: as the
/// amount of a payment, as the amount of a new schedule whatever its period,
/// and, in a batch whose lists match in length, at any position.
pub proof fn law_invalid_amount_is_rejected_everywhere(
    amount: i128,
    interval: i64,
    payees: nat,
    amounts: Seq<i128>,
    position: int,
)
    requires
        amount <= 0,
    ensures
        amount_verdict(amount) == Err::<(), PaymentError>(PaymentError::InvalidAmount),
        schedule_verdict(amount, interval) == Err::<(), PaymentError>(PaymentError::InvalidAmount),
        payees == amounts.len() && 0 <= position < amounts.len() && amounts[position] == amount
            ==> bulk_verdict(payees, amounts) == Err::<(), PaymentError>(
            PaymentError::InvalidAmount,
        ),
{
    if payees == amounts.len() && 0 <= position < amounts.len() && amounts[position] == amount {
        assert(!amount_is_valid(amounts[position]));
        assert(!all_amounts_valid(amounts));
    }
}

/// A payment of an amount that is zero or negative is answered with
/// `InvalidAmount`, records nothing and asks nothing of the transfer service.
pub proof fn law_invalid_payment_leaves_no_trace(
    before: SystemView,
    after: SystemView,
    asked_before: Seq<TransferAttempt>,
    asked_after: Seq<TransferAttempt>,
    payer: Account,
    payee: Account,
    amount: i128,
    message: Seq<char>,
    now: u64,
    result: Result<RecordView, ErrorView>,
)
    requires
        amount <= 0,
        payment_effect(
            before,
            after,
            asked_before,
            asked_after,
            payer,
            payee,
            amount,
            message,
            now,
            result,
        ),
    ensures
        result == Err::<RecordView, ErrorView>(ErrorView::InvalidAmount),
        after == before,
        asked_after == asked_before,
{
}

/// A bulk request that is not admitted changes nothing and reaches nobody:
/// the ledger, the schedules and the transfer service's log are as before,
/// nothing counts as committed, and the error is the verdict on the request.
/// Lists of different lengths are answered with `LengthMismatch`, whatever
/// the amounts; lists of equal length with an amount that is zero or negative
/// are answered with `InvalidAmount`.
pub proof fn law_rejected_bulk_changes_nothing(
    before: SystemView,
    after: SystemView,
    asked_before: Seq<TransferAttempt>,
    asked_after: Seq<TransferAttempt>,
    payer: Account,
    payees: Seq<Account>,
    amounts: Seq<i128>,
    now: u64,
    result: Result<Seq<RecordView>, FailedBulkView>,
)
    requires
        bulk_effect(before, after, asked_before, asked_after, payer, payees, amounts, now, result),
        payees.len() != amounts.len() || !all_amounts_valid(amounts),
    ensures
        after == before,
        asked_after == asked_before,
        result == Err::<Seq<RecordView>, FailedBulkView>(
            FailedBulkView {
                error: if payees.len() != amounts.len() {
                    ErrorView::LengthMismatch
                } else {
                    ErrorView::InvalidAmount
                },
                committed: Seq::empty(),
            },
        ),
{
}

/// A request that was rejected by its admission check is rejected again in
/// the same way, and still nothing has changed: a second run of the same
/// payment from the state that the first run left gives the same error and
/// leaves the state that was there before the first.
pub proof fn law_rejected_payment_repeats(
    before: SystemView,
    between: SystemView,
    after: SystemView,
    asked_before: Seq<TransferAttempt>,
    asked_between: Seq<TransferAttempt>,
    asked_after: Seq<TransferAttempt>,
    payer: Account,
    payee: Account,
    amount: i128,
    message: Seq<char>,
    now: u64,
    later: u64,
    first: Result<RecordView, ErrorView>,
    second: Result<RecordView, ErrorView>,
)
    requires
        payment_effect(
            before,
            between,
            asked_before,
            asked_between,
            payer,
            payee,
            amount,
            message,
            now,
            first,
        ),
        first == Err::<RecordView, ErrorView>(ErrorView::InvalidAmount),
        payment_effect(
            between,
            after,
            asked_between,
            asked_after,
            payer,
            payee,
            amount,
            message,
            later,
            second,
        ),
    ensures
        second == first,
        after == before,
        asked_after == asked_before,
{
    if amount_is_valid(amount) {
        let record = settlement_of(asked_between.last(), message, now);
        assert(first == payment_result(record));
    }
}

/// A bulk request that was rejected by its admission check is rejected again
/// in the same way, and still nothing has changed.
pub proof fn law_rejected_bulk_repeats(
    before: SystemView,
    between: SystemView,
    after: SystemView,
    asked_before: Seq<TransferAttempt>,
    asked_between: Seq<TransferAttempt>,
    asked_after: Seq<TransferAttempt>,
    payer: Account,
    payees: Seq<Account>,
    amounts: Seq<i128>,
    now: u64,
    later: u64,
    first: Result<Seq<RecordView>, FailedBulkView>,
    second: Result<Seq<RecordView>, FailedBulkView>,
)
    requires
        bulk_effect(
            before,
            between,
            asked_before,
            asked_between,
            payer,
            payees,
            amounts,
            now,
            first,
        ),
        bulk_verdict(payees.len(), amounts) is Err,
        bulk_effect(
            between,
            after,
            asked_between,
            asked_after,
            payer,
            payees,
            amounts,
            later,
            second,
        ),
    ensures
        second == first,
        after == before,
        asked_after == asked_before,
{
}

/// A request for a schedule that was rejected by its admission check is
/// rejected again in the same way, and still nothing has changed.
pub proof fn law_rejected_schedule_repeats(
    before: SystemView,
    between: SystemView,
    after: SystemView,
    owner: Account,
    payee: Account,
    amount: i128,
    interval: i64,
    now: u64,
    later: u64,
    first: Result<ScheduleDefinition, PaymentError>,
    second: Result<ScheduleDefinition, PaymentError>,
)
    requires
        schedule_effect(before, between, owner, payee, amount, interval, now, first),
        first is Err,
        schedule_effect(between, after, owner, payee, amount, interval, later, second),
    ensures
        second == first,
        after == before,
{
}

/// Appending a record puts it at the head of the history of each account it
/// involves and leaves every other history as it was.
pub proof fn law_record_heads_history(
    records: Seq<RecordView>,
    record: RecordView,
    account: Account,
)
    ensures
        history_of(records.push(record), account) == if involves(record, account) {
            seq![record] + history_of(records, account)
        } else {
            history_of(records, account)
        },
{
    assert(records.push(record).drop_last() =~= records);
}

/// A payment that went through is the newest entry of the payer's history
/// and of the payee's, in front of what their histories were; a payment that
/// was refused is there too, as rejected. Every record that was in the ledger
/// is still there, unaltered and in place.
pub proof fn law_payment_heads_history(
    before: SystemView,
    after: SystemView,
    asked_before: Seq<TransferAttempt>,
    asked_after: Seq<TransferAttempt>,
    payer: Account,
    payee: Account,
    amount: i128,
    message: Seq<char>,
    now: u64,
    result: Result<RecordView, ErrorView>,
)
    requires
        amount > 0,
        payment_effect(
            before,
            after,
            asked_before,
            asked_after,
            payer,
            payee,
            amount,
            message,
            now,
            result,
        ),
    ensures
        after.records.len() == before.records.len() + 1,
        after.records.take(before.records.len() as int) == before.records,
        history_of(after.records, payer) == seq![after.records.last()] + history_of(
            before.records,
            payer,
        ),
        history_of(after.records, payee) == seq![after.records.last()] + history_of(
            before.records,
            payee,
        ),
        result matches Ok(record) ==> record == after.records.last() && record.outcome
            == TransferOutcome::Committed,
        result is Err ==> after.records.last().outcome == TransferOutcome::Rejected,
{
    let record = settlement_of(asked_after.last(), message, now);
    law_record_heads_history(before.records, record, payer);
    law_record_heads_history(before.records, record, payee);
    assert(before.records.push(record).take(before.records.len() as int) =~= before.records);
}

/// The ledger is append-only as seen through the history: after any number
/// of payments by one payer have been recorded, that payer's history is
/// those payments, newest first, followed by the history it had before; and
/// every record that was in the ledger is still there, unaltered and in
/// place.
pub proof fn law_history_grows_by_payments(
    records: Seq<RecordView>,
    payments: Seq<RecordView>,
    payer: Account,
)
    requires
        forall|k: int| 0 <= k < payments.len() ==> (#[trigger] payments[k]).payer == payer,
    ensures
        history_of(records + payments, payer) == payments.reverse() + history_of(records, payer),
        history_of(records + payments, payer).len() == payments.len() + history_of(
            records,
            payer,
        ).len(),
        (records + payments).take(records.len() as int) == records,
    decreases payments.len(),
{
    assert((records + payments).take(records.len() as int) =~= records);
    if payments.len() == 0 {
        assert(records + payments =~= records);
        assert(payments.reverse() + history_of(records, payer) =~= history_of(records, payer));
    } else {
        let earlier = payments.drop_last();
        let newest = payments.last();
        law_history_grows_by_payments(records, earlier, payer);
        assert(records + payments =~= (records + earlier).push(newest));
        law_record_heads_history(records + earlier, newest, payer);
        assert(payments.reverse() =~= seq![newest] + earlier.reverse());
        assert(seq![newest] + (earlier.reverse() + history_of(records, payer)) =~= (seq![newest]
            + earlier.reverse()) + history_of(records, payer));
    }
}

/// The history of an account is the log filtered for the account and read
/// backwards.
pub proof fn law_history_is_filtered_log(records: Seq<RecordView>, account: Account)
    ensures
        history_of(records, account) == records.filter(
            |record: RecordView| involves(record, account),
        ).reverse(),
    decreases records.len(),
{
    let wanted = |record: RecordView| involves(record, account);
    reveal(Seq::filter);
    if records.len() == 0 {
        assert(records.filter(wanted).reverse() =~= Seq::<RecordView>::empty());
    } else {
        let earlier = records.drop_last();
        law_history_is_filtered_log(earlier, account);
        if involves(records.last(), account) {
            assert(earlier.filter(wanted).push(records.last()).reverse() =~= seq![records.last()]
                + earlier.filter(wanted).reverse());
        }
    }
}

/// A cursor stays good: records that are appended after a cursor was handed
/// out do not change what lies ahead of it.
pub proof fn law_cursor_survives_appends(
    records: Seq<RecordView>,
    appended: Seq<RecordView>,
    account: Account,
    remaining: int,
)
    requires
        0 <= remaining <= records.len(),
    ensures
        history_of((records + appended).take(remaining), account) == history_of(
            records.take(remaining),
            account,
        ),
{
    assert((records + appended).take(remaining) =~= records.take(remaining));
}

/// Records mirror attempts: a run of attempts is settled by as many records,
/// and a record is committed exactly when its attempt was not refused.
pub proof fn law_records_mirror_attempts(
    made: Seq<TransferAttempt>,
    message: Seq<char>,
    timestamp: u64,
    k: int,
)
    requires
        0 <= k < made.len(),
    ensures
        settlements(made, message, timestamp).len() == made.len(),
        settlements(made, message, timestamp)[k] == settlement_of(made[k], message, timestamp),
        settlements(made, message, timestamp)[k].outcome == TransferOutcome::Committed
            <==> made[k].refusal is None,
        payment_result(settlements(made, message, timestamp)[k]) is Ok <==> made[k].refusal
            is None,
{
}

/// A bulk payment stops at the first refusal: when entry `k` of an admitted
/// batch is refused, the entries before it were committed and are returned
/// with the error, entry `k` is on record as rejected, and no transfer is
/// attempted and nothing is recorded for any entry after it.
pub proof fn law_bulk_stops_at_first_refusal(
    before: SystemView,
    after: SystemView,
    asked_before: Seq<TransferAttempt>,
    asked_after: Seq<TransferAttempt>,
    payer: Account,
    payees: Seq<Account>,
    amounts: Seq<i128>,
    now: u64,
    result: Result<Seq<RecordView>, FailedBulkView>,
    k: int,
)
    requires
        bulk_effect(before, after, asked_before, asked_after, payer, payees, amounts, now, result),
        bulk_verdict(payees.len(), amounts) is Ok,
        0 <= k < asked_since(asked_before, asked_after).len(),
        asked_since(asked_before, asked_after)[k].refusal is Some,
    ensures
        asked_after.len() == asked_before.len() + k + 1,
        after.records.len() == before.records.len() + k + 1,
        after.records.last().outcome == TransferOutcome::Rejected,
        forall|j: int|
            0 <= j < k ==> (#[trigger] asked_since(asked_before, asked_after)[j]).refusal is None,
        result matches Err(failure) && failure.committed.len() == k && failure.error
            == ErrorView::TransferError(asked_since(asked_before, asked_after)[k].refusal->0),
        forall|j: int|
            0 <= j < k ==> (#[trigger] result->Err_0.committed[j]).outcome
                == TransferOutcome::Committed && result->Err_0.committed[j].payee == payees[j],
{
    let made = asked_since(asked_before, asked_after);
    let written = settlements(made, bulk_message(), now);
    assert(made.len() == k + 1) by {
        if k < made.len() - 1 {
            assert(made[k].refusal is None);
        }
    }
    assert(made.last() == made[k]);
    assert(after.records.last() == written[k]);
    assert forall|j: int| 0 <= j < k implies (#[trigger] result->Err_0.committed[j]).outcome
        == TransferOutcome::Committed && result->Err_0.committed[j].payee == payees[j] by {
        assert(written.drop_last()[j] == written[j]);
        assert(made[j].refusal is None);
    }
}

/// Up to [`LATEST_CLOCK`] there is room for one more period: a new schedule
/// has a first due time, and every schedule that is due has a next one. So
/// scheduling and serving are possible at every such time, whatever the
/// registry holds.
pub proof fn law_clock_leaves_room(schedules: Seq<ScheduleDefinition>, interval: i64, now: u64)
    requires
        now <= LATEST_CLOCK,
    ensures
        now + interval <= u64::MAX,
        can_serve(schedules, now),
{
}

/// Due times move by whole periods. In one tick of the scheduler, a due
/// schedule whose payment was committed becomes due exactly one period after
/// its old due time, whatever the time of the tick, and is otherwise
/// unchanged; a due schedule whose payment was refused is left as it was.
pub proof fn law_due_time_advances_by_interval(
    before: SystemView,
    after: SystemView,
    asked_before: Seq<TransferAttempt>,
    asked_after: Seq<TransferAttempt>,
    now: u64,
    results: Seq<Result<RecordView, ErrorView>>,
    k: int,
)
    requires
        can_serve(before.schedules, now),
        schedules_are_sound(before.schedules),
        due_run_effect(before, after, asked_before, asked_after, now, results),
        0 <= k < due_list(before.schedules, now).len(),
    ensures
        ({
            let def = due_list(before.schedules, now)[k];
            let then = after.schedules[def.id as int];
            &&& before.schedules[def.id as int] == def
            &&& results[k] is Ok ==> then.next_due == def.next_due + def.interval && then
                == advanced(def)
            &&& results[k] is Err ==> then == def
        }),
{
    let due = due_list(before.schedules, now);
    lemma_due_list_exists(before.schedules, now);
    let def = due[k];
    let made = asked_since(asked_before, asked_after);
    assert(before.schedules[def.id as int] == def);
    assert(made[k].amount == def.amount);
    let written = settlements(made, scheduled_message(), now);
    assert(results[k] == payment_result(written[k]));
    assert(is_due(before.schedules[def.id as int], now));
}

/// A cancelled schedule is out of every tick: it is not on the due list at
/// any time, however long its due time has passed, and a tick of the
/// scheduler leaves it as it is.
pub proof fn law_cancelled_schedule_is_never_served(
    before: SystemView,
    after: SystemView,
    asked_before: Seq<TransferAttempt>,
    asked_after: Seq<TransferAttempt>,
    now: u64,
    results: Seq<Result<RecordView, ErrorView>>,
    schedule_id: int,
)
    requires
        schedules_are_sound(before.schedules),
        due_run_effect(before, after, asked_before, asked_after, now, results),
        0 <= schedule_id < before.schedules.len(),
        before.schedules[schedule_id].status == ScheduleStatus::Cancelled,
    ensures
        !due_list(before.schedules, now).contains(before.schedules[schedule_id]),
        forall|k: int|
            0 <= k < due_list(before.schedules, now).len() ==> (#[trigger] due_list(
                before.schedules,
                now,
            )[k]).id != schedule_id,
        after.schedules[schedule_id] == before.schedules[schedule_id],
{
    lemma_due_list_exists(before.schedules, now);
    let due = due_list(before.schedules, now);
    assert(!is_due(before.schedules[schedule_id], now));
    assert forall|k: int| 0 <= k < due.len() implies (#[trigger] due[k]).id != schedule_id by {
        assert(before.schedules[due[k].id as int] == due[k]);
    }
    if due.contains(before.schedules[schedule_id]) {
        let k: int = choose|k: int| 0 <= k < due.len() && due[k] == before.schedules[schedule_id];
        assert(is_due(due[k], now));
    }
}

/// Cancelling ends a schedule for good: after a successful cancellation the
/// schedule is cancelled, whatever it was before, and it is not due at any
/// time.
pub proof fn law_cancel_is_final(
    before: SystemView,
    after: SystemView,
    owner: Account,
    schedule_id: u64,
    result: Result<(), PaymentError>,
    now: u64,
)
    requires
        cancel_effect(before, after, owner, schedule_id, result),
        result is Ok,
    ensures
        schedule_id < before.schedules.len(),
        after.schedules.len() == before.schedules.len(),
        after.schedules[schedule_id as int].status == ScheduleStatus::Cancelled,
        after.schedules[schedule_id as int] == cancelled(before.schedules[schedule_id as int]),
        !is_due(after.schedules[schedule_id as int], now),
        forall|i: int|
            0 <= i < before.schedules.len() && i != schedule_id ==> after.schedules[i]
                == before.schedules[i],
{
}

} // verus!
