//! The transaction ledger: an append-only log of settled transfers.
//!
//! The ledger is an audit log. It records every transfer that reached the
//! transfer service, whether the service committed or rejected it, and answers
//! history queries per account. It does not keep balances: those belong to
//! the transfer service.

use vstd::prelude::*;
use crate::account::Account;
use crate::error::{refusal, ErrorView, PaymentError, TransferFailure};

verus! {

/// How a transfer that reached the transfer service ended.
#[derive(Clone, Copy, Debug, PartialEq, Eq)]
pub enum TransferOutcome {
    /// The service moved the funds.
    Committed,
    /// The service refused; no funds moved.
    Rejected,
}

/// One settled transfer. A record is written once and never changed.
#[derive(Clone, Debug, PartialEq, Eq)]
pub struct TransferRecord {
    pub payer: Account,
    pub payee: Account,
    pub amount: i128,
    pub message: String,
    pub timestamp: u64,
    pub outcome: TransferOutcome,
    /// The transfer service's reason, present exactly on rejected transfers
    /// that the core settled.
    pub reason: Option<String>,
}

/// The mathematical content of a [`TransferRecord`]: texts are sequences of
/// characters.
#[verifier::ext_equal]
pub struct RecordView {
    pub payer: Account,
    pub payee: Account,
    pub amount: i128,
    pub message: Seq<char>,
    pub timestamp: u64,
    pub outcome: TransferOutcome,
    pub reason: Option<Seq<char>>,
}

impl View for TransferRecord {
    type V = RecordView;

    open spec fn view(&self) -> RecordView {
        RecordView {
            payer: self.payer,
            payee: self.payee,
            amount: self.amount,
            message: self.message@,
            timestamp: self.timestamp,
            outcome: self.outcome,
            reason: match self.reason {
                Some(text) => Some(text@),
                None => None,
            },
        }
    }
}

/// The views of a sequence of records, in the same order.
pub open spec fn record_views(records: Seq<TransferRecord>) -> Seq<RecordView> {
    records.map_values(|record: TransferRecord| record@)
}

/// The record of a transfer that the service answered: committed with no
/// reason when `refusal` is `None`, rejected with the service's reason
/// otherwise.
pub open spec fn settlement(
    payer: Account,
    payee: Account,
    amount: i128,
    message: Seq<char>,
    timestamp: u64,
    refusal: Option<Seq<char>>,
) -> RecordView {
    RecordView {
        payer,
        payee,
        amount,
        message,
        timestamp,
        outcome: if refusal is None {
            TransferOutcome::Committed
        } else {
            TransferOutcome::Rejected
        },
        reason: refusal,
    }
}

/// What the caller of a payment gets back for a settled transfer: the record
/// if it was committed, the service's refusal otherwise.
pub open spec fn payment_result(record: RecordView) -> Result<RecordView, ErrorView> {
    match record.reason {
        None => Ok(record),
        Some(reason) => Err(ErrorView::TransferError(reason)),
    }
}

/// The view of what a payment returned.
pub open spec fn result_view(result: Result<TransferRecord, PaymentError>) -> Result<
    RecordView,
    ErrorView,
> {
    match result {
        Ok(record) => Ok(record@),
        Err(error) => Err(error@),
    }
}

/// Whether the account appears in the record, as payer or as payee.
pub open spec fn involves(record: RecordView, account: Account) -> bool {
    record.payer == account || record.payee == account
}

/// The history of an account: the records that involve it, newest first.
pub open spec fn history_of(records: Seq<RecordView>, account: Account) -> Seq<RecordView>
    decreases records.len(),
{
    if records.len() == 0 {
        Seq::empty()
    } else if involves(records.last(), account) {
        seq![records.last()] + history_of(records.drop_last(), account)
    } else {
        history_of(records.drop_last(), account)
    }
}

/// The smaller of two lengths.
pub open spec fn at_most(limit: nat, available: nat) -> nat {
    if limit <= available {
        limit
    } else {
        available
    }
}

/// Unfolds `history_of` at the newest of the first `upto` records.
proof fn lemma_history_step(records: Seq<RecordView>, account: Account, upto: int)
    requires
        0 < upto <= records.len(),
    ensures
        history_of(records.take(upto), account) == if involves(records[upto - 1], account) {
            seq![records[upto - 1]] + history_of(records.take(upto - 1), account)
        } else {
            history_of(records.take(upto - 1), account)
        },
{
    assert(records.take(upto).drop_last() =~= records.take(upto - 1));
    assert(records.take(upto).last() == records[upto - 1]);
}

impl TransferRecord {
    /// Builds the record of a transfer from the transfer service's answer.
    pub fn settled(
        payer: Account,
        payee: Account,
        amount: i128,
        message: String,
        timestamp: u64,
        outcome: &Result<(), TransferFailure>,
    ) -> (record: TransferRecord)
        ensures
            record@ == settlement(
                payer,
                payee,
                amount,
                message@,
                timestamp,
                refusal(*outcome),
            ),
    {
        match outcome {
            Ok(_) => TransferRecord {
                payer,
                payee,
                amount,
                message,
                timestamp,
                outcome: TransferOutcome::Committed,
                reason: None,
            },
            Err(failure) => TransferRecord {
                payer,
                payee,
                amount,
                message,
                timestamp,
                outcome: TransferOutcome::Rejected,
                reason: Some(failure.reason.clone()),
            },
        }
    }

    /// A copy of the record, field for field.
    pub fn duplicate(&self) -> (copy: TransferRecord)
        ensures
            copy@ == self@,
    {
        let reason = match &self.reason {
            Some(text) => Some(text.clone()),
            None => None,
        };
        TransferRecord {
            payer: self.payer,
            payee: self.payee,
            amount: self.amount,
            message: self.message.clone(),
            timestamp: self.timestamp,
            outcome: self.outcome,
            reason,
        }
    }

    /// Whether the account appears in the record, as payer or as payee.
    pub fn involves(&self, account: &Account) -> (found: bool)
        ensures
            found == involves(self@, *account),
    {
        self.payer.same_as(account) || self.payee.same_as(account)
    }

    /// The event to publish for this record, if any: committed transfers are
    /// announced, rejected ones are not.
    pub fn event(&self) -> (event: Option<PaymentEvent>)
        ensures
            optional_event_view(event) == announcement(self@),
    {
        match self.outcome {
            TransferOutcome::Committed => Some(
                PaymentEvent {
                    payee: self.payee,
                    amount: self.amount,
                    message: self.message.clone(),
                },
            ),
            TransferOutcome::Rejected => None,
        }
    }

    /// What the caller of a payment gets back for this record: the record
    /// itself unless it carries a refusal, which becomes the error.
    pub fn into_result(self) -> (result: Result<TransferRecord, PaymentError>)
        ensures
            result_view(result) == payment_result(self@),
    {
        match &self.reason {
            None => Ok(self),
            Some(text) => Err(PaymentError::TransferError(text.clone())),
        }
    }
}

/// The topic under which committed payments are announced.
pub const PAYMENT_TOPIC: &'static str = "payment";

/// The announcement of a committed payment, for the event publisher: under
/// [`PAYMENT_TOPIC`], to the payee, with the amount and the payer's message.
#[derive(Clone, Debug, PartialEq, Eq)]
pub struct PaymentEvent {
    pub payee: Account,
    pub amount: i128,
    pub message: String,
}

/// The mathematical content of a [`PaymentEvent`].
#[verifier::ext_equal]
pub struct EventView {
    pub payee: Account,
    pub amount: i128,
    pub message: Seq<char>,
}

impl View for PaymentEvent {
    type V = EventView;

    open spec fn view(&self) -> EventView {
        EventView { payee: self.payee, amount: self.amount, message: self.message@ }
    }
}

/// The views of a sequence of events, in the same order.
pub open spec fn event_views(events: Seq<PaymentEvent>) -> Seq<EventView> {
    events.map_values(|event: PaymentEvent| event@)
}

/// The announcement that a record calls for: one for a committed transfer,
/// none for a rejected one.
pub open spec fn announcement(record: RecordView) -> Option<EventView> {
    if record.outcome == TransferOutcome::Committed {
        Some(EventView { payee: record.payee, amount: record.amount, message: record.message })
    } else {
        None
    }
}

/// The announcements that a run of records calls for: those of its committed
/// records, in the order of the records.
pub open spec fn announcements(records: Seq<RecordView>) -> Seq<EventView> {
    records.filter_map(|record: RecordView| announcement(record))
}

/// The view of an optional event.
pub open spec fn optional_event_view(event: Option<PaymentEvent>) -> Option<EventView> {
    match event {
        Some(e) => Some(e@),
        None => None,
    }
}

/// A single record calls for its own announcement and no other.
pub proof fn lemma_announcements_of_one(record: RecordView)
    ensures
        announcements(seq![record]) == match announcement(record) {
            Some(event) => seq![event],
            None => Seq::empty(),
        },
{
    let wanted = |record: RecordView| announcement(record);
    assert(seq![record].drop_last() =~= Seq::<RecordView>::empty());
    assert(Seq::<RecordView>::empty().filter_map(wanted) =~= Seq::<EventView>::empty());
    match announcement(record) {
        Some(event) => {
            assert(Seq::<EventView>::empty() + seq![event] =~= seq![event]);
        },
        None => {},
    }
}

/// One more record adds its announcement, if it calls for one, behind those
/// of the records before it.
pub proof fn lemma_announcements_push(records: Seq<RecordView>, record: RecordView)
    ensures
        announcements(records.push(record)) == match announcement(record) {
            Some(event) => announcements(records).push(event),
            None => announcements(records),
        },
{
    assert(records.push(record).drop_last() =~= records);
    match announcement(record) {
        Some(event) => {
            assert(announcements(records) + seq![event] =~= announcements(records).push(event));
        },
        None => {},
    }
}

/// A position in a ledger at which a history query can be resumed. A cursor
/// stays good when records are appended after it was handed out.
#[derive(Clone, Copy, Debug, PartialEq, Eq)]
pub struct Cursor {
    position: usize,
}

impl Cursor {
    /// How many of the oldest records still lie ahead of a query resumed
    /// here.
    pub closed spec fn remaining(&self) -> nat {
        self.position as nat
    }

    /// The cursor that leaves the `remaining` oldest records ahead.
    pub fn at(remaining: usize) -> (cursor: Cursor)
        ensures
            cursor.remaining() == remaining,
    {
        Cursor { position: remaining }
    }

    /// The number that [`Cursor::at`] turns back into this cursor.
    pub fn token(&self) -> (remaining: usize)
        ensures
            remaining == self.remaining(),
    {
        self.position
    }
}

/// Where a query starts in a ledger of `len` records: at the newest record
/// without a cursor, at the cursor otherwise. A cursor that points past the
/// end is read as the end.
pub open spec fn resume_point(len: nat, cursor: Option<Cursor>) -> nat {
    match cursor {
        None => len,
        Some(c) => at_most(c.remaining(), len),
    }
}

/// One page of an account's history.
#[derive(Clone, Debug, PartialEq, Eq)]
pub struct HistoryPage {
    /// The records of the page, newest first.
    pub records: Vec<TransferRecord>,
    /// Where to resume for the next page; `None` when the history is
    /// exhausted.
    pub next: Option<Cursor>,
}

/// The append-only log of settled transfers, oldest first.
pub struct TransactionLedger {
    records: Vec<TransferRecord>,
}

impl View for TransactionLedger {
    type V = Seq<RecordView>;

    closed spec fn view(&self) -> Seq<RecordView> {
        record_views(self.records@)
    }
}

impl TransactionLedger {
    /// An empty ledger.
    pub fn new() -> (ledger: TransactionLedger)
        ensures
            ledger@ == Seq::<RecordView>::empty(),
    {
        TransactionLedger { records: Vec::new() }
    }

    /// A ledger that holds the given records, oldest first.
    pub fn restore(records: Vec<TransferRecord>) -> (ledger: TransactionLedger)
        ensures
            ledger@ == record_views(records@),
    {
        TransactionLedger { records }
    }

    /// The number of records.
    pub fn len(&self) -> (n: usize)
        ensures
            n == self@.len(),
    {
        self.records.len()
    }

    /// The records, oldest first.
    pub fn records(&self) -> (records: &Vec<TransferRecord>)
        ensures
            record_views(records@) == self@,
    {
        &self.records
    }

    /// Appends a record. This is the ledger's only mutation: what was
    /// recorded before stays as it was.
    pub fn record(&mut self, entry: TransferRecord)
        ensures
            final(self)@ == old(self)@.push(entry@),
    {
        self.records.push(entry);
        assert(record_views(self.records@) =~= record_views(old(self).records@).push(entry@));
    }

    /// One page of the account's history: at most `limit` records that
    /// involve the account, newest first, starting at the newest record or
    /// where `cursor` says. The page carries a cursor exactly when more
    /// records of the history lie beyond it; that cursor points at the next
    /// one.
    pub fn history(&self, account: &Account, limit: usize, cursor: Option<Cursor>) -> (page:
        HistoryPage)
        ensures
            ({
                let start = resume_point(self@.len(), cursor) as int;
                let pending = history_of(self@.take(start), *account);
                &&& record_views(page.records@) == pending.take(
                    at_most(limit as nat, pending.len()) as int,
                )
                &&& page.next is None <==> pending.len() <= limit
                &&& page.next matches Some(next) ==> {
                    &&& 0 < next.remaining() <= start
                    &&& involves(self@[next.remaining() - 1], *account)
                    &&& history_of(self@.take(next.remaining() as int), *account) == pending.skip(
                        limit as int,
                    )
                }
            }),
    {
        let len: usize = self.records.len();
        let start: usize = match cursor {
            None => len,
            Some(c) => if c.position <= len {
                c.position
            } else {
                len
            },
        };
        let ghost pending = history_of(self@.take(start as int), *account);
        let mut found: Vec<TransferRecord> = Vec::new();
        let mut i: usize = start;
        while i > 0
            invariant
                i <= start <= self.records@.len(),
                start == resume_point(self@.len(), cursor),
                found@.len() <= limit,
                pending == history_of(self@.take(start as int), *account),
                pending == record_views(found@) + history_of(self@.take(i as int), *account),
            decreases i,
        {
            proof {
                lemma_history_step(self@, *account, i as int);
            }
            let entry = &self.records[i - 1];
            if entry.involves(account) {
                if found.len() == limit {
                    assert(self@[i - 1] == entry@);
                    assert(history_of(self@.take(i as int), *account).len() > 0);
                    assert(pending.len() > limit);
                    assert(pending.take(limit as int) =~= record_views(found@));
                    assert(pending.skip(limit as int) =~= history_of(
                        self@.take(i as int),
                        *account,
                    ));
                    return HistoryPage { records: found, next: Some(Cursor { position: i }) };
                }
                let ghost before = found@;
                found.push(entry.duplicate());
                assert(record_views(found@) =~= record_views(before).push(entry@));
                assert(pending =~= record_views(found@) + history_of(
                    self@.take(i - 1),
                    *account,
                ));
            }
            i = i - 1;
        }
        assert(self@.take(0) =~= Seq::<RecordView>::empty());
        assert(pending =~= record_views(found@));
        assert(pending.take(pending.len() as int) =~= pending);
        HistoryPage { records: found, next: None }
    }

    /// The whole history of an account, newest first.
    pub fn full_history(&self, account: &Account) -> (records: Vec<TransferRecord>)
        ensures
            record_views(records@) == history_of(self@, *account),
    {
        let mut found: Vec<TransferRecord> = Vec::new();
        let mut i: usize = self.records.len();
        assert(self@.take(i as int) =~= self@);
        while i > 0
            invariant
                i <= self.records@.len(),
                history_of(self@, *account) == record_views(found@) + history_of(
                    self@.take(i as int),
                    *account,
                ),
            decreases i,
        {
            proof {
                lemma_history_step(self@, *account, i as int);
            }
            let entry = &self.records[i - 1];
            if entry.involves(account) {
                let ghost before = found@;
                found.push(entry.duplicate());
                assert(record_views(found@) =~= record_views(before).push(entry@));
                assert(history_of(self@, *account) =~= record_views(found@) + history_of(
                    self@.take(i - 1),
                    *account,
                ));
            }
            i = i - 1;
        }
        assert(self@.take(0) =~= Seq::<RecordView>::empty());
        assert(history_of(self@, *account) =~= record_views(found@));
        found
    }
}

} // verus!
