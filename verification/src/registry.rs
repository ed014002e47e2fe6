//! The schedule registry: recurring-payment definitions and their due times.
//!
//! A definition is created active, with its first due time. From then on only
//! two things happen to it: a successful execution moves its due time forward
//! by one period, and a cancellation by its owner ends it. Definitions are
//! never removed, so that an id always names the same schedule.

use vstd::prelude::*;
use crate::account::Account;
use crate::error::PaymentError;
use crate::validator::{schedule_verdict, validate_schedule};

verus! {

/// Whether a schedule still produces payments.
#[derive(Clone, Copy, Debug, PartialEq, Eq)]
pub enum ScheduleStatus {
    Active,
    /// Ended by its owner. A cancelled schedule stays cancelled.
    Cancelled,
}

/// A recurring payment: `amount` from `owner` to `payee` every `interval`
/// seconds, next at `next_due`.
#[derive(Clone, Copy, Debug, PartialEq, Eq)]
pub struct ScheduleDefinition {
    /// The schedule's id: its position in the order of creation.
    pub id: u64,
    pub owner: Account,
    pub payee: Account,
    pub amount: i128,
    pub interval: i64,
    pub next_due: u64,
    pub status: ScheduleStatus,
}

/// A clock reading up to which every due time can move forward: one whole
/// period, however long, still fits above it.
pub const LATEST_CLOCK: u64 = 9_223_372_036_854_775_808;

/// The definition that `create` stores for valid arguments in a registry that
/// holds `count` schedules.
pub open spec fn created(
    count: nat,
    owner: Account,
    payee: Account,
    amount: i128,
    interval: i64,
    next_due: u64,
) -> ScheduleDefinition {
    ScheduleDefinition {
        id: count as u64,
        owner,
        payee,
        amount,
        interval,
        next_due,
        status: ScheduleStatus::Active,
    }
}

/// The definition after its owner cancelled it.
pub open spec fn cancelled(def: ScheduleDefinition) -> ScheduleDefinition {
    ScheduleDefinition { status: ScheduleStatus::Cancelled, ..def }
}

/// The definition after one successful execution: due one period later than
/// it was, whatever the time of the execution.
pub open spec fn advanced(def: ScheduleDefinition) -> ScheduleDefinition {
    ScheduleDefinition { next_due: (def.next_due + def.interval) as u64, ..def }
}

/// The definition after an attempt to execute it: moved forward if the
/// payment was committed, as it was if the payment was refused.
pub open spec fn served(def: ScheduleDefinition, committed: bool) -> ScheduleDefinition {
    if committed {
        advanced(def)
    } else {
        def
    }
}

/// The next due time of the schedule is a time that the clock can show.
pub open spec fn can_advance(def: ScheduleDefinition) -> bool {
    def.next_due + def.interval <= u64::MAX
}

/// Each schedule that is due at `now` can move its due time forward.
pub open spec fn can_serve(schedules: Seq<ScheduleDefinition>, now: u64) -> bool {
    forall|i: int|
        0 <= i < schedules.len() && is_due(#[trigger] schedules[i], now) ==> can_advance(
            schedules[i],
        )
}

/// A schedule is due when it is active and its due time has come.
pub open spec fn is_due(def: ScheduleDefinition, now: u64) -> bool {
    def.status == ScheduleStatus::Active && def.next_due <= now
}

/// The order in which due schedules are served: earlier due time first, and
/// among equal due times the schedule created first.
pub open spec fn due_before(a: ScheduleDefinition, b: ScheduleDefinition) -> bool {
    a.next_due < b.next_due || (a.next_due == b.next_due && a.id < b.id)
}

/// Every definition sits at the position that its id names, with a valid
/// amount and period.
pub open spec fn schedules_are_sound(schedules: Seq<ScheduleDefinition>) -> bool {
    forall|i: int|
        0 <= i < schedules.len() ==> {
            &&& (#[trigger] schedules[i]).id == i
            &&& schedules[i].amount > 0
            &&& schedules[i].interval > 0
        }
}

/// Each element comes before all later ones in the serving order.
pub open spec fn in_due_order(list: Seq<ScheduleDefinition>) -> bool {
    forall|j: int, k: int| 0 <= j < k < list.len() ==> due_before(list[j], list[k])
}

/// Each element is a schedule of the registry that is due at `now`.
pub open spec fn only_due(
    schedules: Seq<ScheduleDefinition>,
    now: u64,
    list: Seq<ScheduleDefinition>,
) -> bool {
    forall|k: int|
        0 <= k < list.len() ==> {
            &&& (#[trigger] list[k]).id < schedules.len()
            &&& schedules[list[k].id as int] == list[k]
            &&& is_due(list[k], now)
        }
}

/// Each schedule of the registry that is due at `now` is an element.
pub open spec fn all_due(
    schedules: Seq<ScheduleDefinition>,
    now: u64,
    list: Seq<ScheduleDefinition>,
) -> bool {
    forall|i: int|
        0 <= i < schedules.len() && is_due(#[trigger] schedules[i], now) ==> list.contains(
            schedules[i],
        )
}

/// `list` is the due list of the registry at `now`: exactly the due
/// schedules, in serving order.
pub open spec fn is_due_list(
    schedules: Seq<ScheduleDefinition>,
    now: u64,
    list: Seq<ScheduleDefinition>,
) -> bool {
    &&& only_due(schedules, now, list)
    &&& all_due(schedules, now, list)
    &&& in_due_order(list)
}

/// The due list of the registry at `now`. There is exactly one: see
/// [`lemma_due_list_is_unique`].
pub open spec fn due_list(schedules: Seq<ScheduleDefinition>, now: u64) -> Seq<
    ScheduleDefinition,
> {
    choose|list: Seq<ScheduleDefinition>| is_due_list(schedules, now, list)
}

/// Two lists in serving order with the same elements are the same list.
pub proof fn lemma_due_order_is_canonical(a: Seq<ScheduleDefinition>, b: Seq<ScheduleDefinition>)
    requires
        in_due_order(a),
        in_due_order(b),
        forall|k: int| 0 <= k < a.len() ==> b.contains(#[trigger] a[k]),
        forall|k: int| 0 <= k < b.len() ==> a.contains(#[trigger] b[k]),
    ensures
        a == b,
    decreases a.len(),
{
    if a.len() == 0 {
        if b.len() > 0 {
            assert(a.contains(b[0]));
        }
        assert(a =~= b);
    } else {
        assert(b.contains(a[0]));
        let j: int = choose|j: int| 0 <= j < b.len() && b[j] == a[0];
        assert(a.contains(b[0]));
        let i: int = choose|i: int| 0 <= i < a.len() && a[i] == b[0];
        if j > 0 {
            assert(due_before(b[0], b[j]));
            if i > 0 {
                assert(due_before(a[0], a[i]));
            }
        }
        assert(a[0] == b[0]);
        let a_rest = a.skip(1);
        let b_rest = b.skip(1);
        assert forall|k: int| 0 <= k < a_rest.len() implies b_rest.contains(
            #[trigger] a_rest[k],
        ) by {
            assert(a_rest[k] == a[k + 1]);
            assert(due_before(a[0], a[k + 1]));
            assert(b.contains(a[k + 1]));
            let m: int = choose|m: int| 0 <= m < b.len() && b[m] == a[k + 1];
            assert(m > 0);
            assert(b_rest[m - 1] == a_rest[k]);
        }
        assert forall|k: int| 0 <= k < b_rest.len() implies a_rest.contains(
            #[trigger] b_rest[k],
        ) by {
            assert(b_rest[k] == b[k + 1]);
            assert(due_before(b[0], b[k + 1]));
            assert(a.contains(b[k + 1]));
            let m: int = choose|m: int| 0 <= m < a.len() && a[m] == b[k + 1];
            assert(m > 0);
            assert(a_rest[m - 1] == b_rest[k]);
        }
        assert forall|j: int, k: int| 0 <= j < k < a_rest.len() implies due_before(
            a_rest[j],
            a_rest[k],
        ) by {
            assert(due_before(a[j + 1], a[k + 1]));
        }
        assert forall|j: int, k: int| 0 <= j < k < b_rest.len() implies due_before(
            b_rest[j],
            b_rest[k],
        ) by {
            assert(due_before(b[j + 1], b[k + 1]));
        }
        lemma_due_order_is_canonical(a_rest, b_rest);
        assert(a =~= seq![a[0]] + a_rest);
        assert(b =~= seq![b[0]] + b_rest);
    }
}

/// A registry has one due list at a time: the order in which due schedules
/// are served is fixed by the registry and the clock.
pub proof fn lemma_due_list_is_unique(
    schedules: Seq<ScheduleDefinition>,
    now: u64,
    a: Seq<ScheduleDefinition>,
    b: Seq<ScheduleDefinition>,
)
    requires
        is_due_list(schedules, now, a),
        is_due_list(schedules, now, b),
    ensures
        a == b,
        a == due_list(schedules, now),
{
    assert forall|k: int| 0 <= k < a.len() implies b.contains(#[trigger] a[k]) by {
        assert(schedules[a[k].id as int] == a[k]);
    }
    assert forall|k: int| 0 <= k < b.len() implies a.contains(#[trigger] b[k]) by {
        assert(schedules[b[k].id as int] == b[k]);
    }
    lemma_due_order_is_canonical(a, b);
    let c = due_list(schedules, now);
    assert(is_due_list(schedules, now, c));
    assert forall|k: int| 0 <= k < a.len() implies c.contains(#[trigger] a[k]) by {
        assert(schedules[a[k].id as int] == a[k]);
    }
    assert forall|k: int| 0 <= k < c.len() implies a.contains(#[trigger] c[k]) by {
        assert(schedules[c[k].id as int] == c[k]);
    }
    lemma_due_order_is_canonical(a, c);
}

/// The place of a schedule due at `next_due` in a list in serving order,
/// when it was created after all the schedules of the list: behind those that
/// are due no later, before those that are due later.
proof fn lemma_insertion_point(list: Seq<ScheduleDefinition>, next_due: u64) -> (p: int)
    requires
        in_due_order(list),
    ensures
        0 <= p <= list.len(),
        forall|j: int| 0 <= j < p ==> (#[trigger] list[j]).next_due <= next_due,
        forall|j: int| p <= j < list.len() ==> (#[trigger] list[j]).next_due > next_due,
    decreases list.len(),
{
    if list.len() == 0 {
        0
    } else if list.last().next_due <= next_due {
        assert forall|j: int| 0 <= j < list.len() implies (#[trigger] list[j]).next_due
            <= next_due by {
            if j < list.len() - 1 {
                assert(due_before(list[j], list[list.len() - 1]));
            }
        }
        list.len() as int
    } else {
        let rest = list.drop_last();
        assert forall|j: int, k: int| 0 <= j < k < rest.len() implies due_before(
            rest[j],
            rest[k],
        ) by {
            assert(due_before(list[j], list[k]));
        }
        let p: int = lemma_insertion_point(rest, next_due);
        assert forall|j: int| p <= j < list.len() implies (#[trigger] list[j]).next_due
            > next_due by {
            if j < rest.len() {
                assert(rest[j] == list[j]);
            }
        }
        assert forall|j: int| 0 <= j < p implies (#[trigger] list[j]).next_due <= next_due by {
            assert(rest[j] == list[j]);
        }
        p
    }
}

/// Builds the due list of a registry, schedule by schedule.
proof fn lemma_build_due_list(schedules: Seq<ScheduleDefinition>, now: u64) -> (list: Seq<
    ScheduleDefinition,
>)
    requires
        schedules_are_sound(schedules),
    ensures
        is_due_list(schedules, now, list),
    decreases schedules.len(),
{
    if schedules.len() == 0 {
        Seq::empty()
    } else {
        let seen = schedules.drop_last();
        let def = schedules.last();
        assert forall|i: int| 0 <= i < seen.len() implies {
            &&& (#[trigger] seen[i]).id == i
            &&& seen[i].amount > 0
            &&& seen[i].interval > 0
        } by {
            assert(seen[i] == schedules[i]);
        }
        let before = lemma_build_due_list(seen, now);
        if is_due(def, now) {
            let p: int = lemma_insertion_point(before, def.next_due);
            let after = before.insert(p, def);
            assert forall|j: int, k: int| 0 <= j < k < after.len() implies due_before(
                after[j],
                after[k],
            ) by {
                if k < p {
                    assert(after[j] == before[j] && after[k] == before[k]);
                } else if k == p {
                    assert(after[j] == before[j]);
                    assert(before[j].id < seen.len());
                } else if j < p {
                    assert(after[j] == before[j] && after[k] == before[k - 1]);
                } else if j == p {
                    assert(after[k] == before[k - 1]);
                } else {
                    assert(after[j] == before[j - 1] && after[k] == before[k - 1]);
                }
            }
            assert forall|k: int| 0 <= k < after.len() implies {
                &&& (#[trigger] after[k]).id < schedules.len()
                &&& schedules[after[k].id as int] == after[k]
                &&& is_due(after[k], now)
            } by {
                if k < p {
                    assert(after[k] == before[k]);
                    assert(seen[before[k].id as int] == before[k]);
                } else if k > p {
                    assert(after[k] == before[k - 1]);
                    assert(seen[before[k - 1].id as int] == before[k - 1]);
                }
            }
            assert forall|m: int|
                0 <= m < schedules.len() && is_due(
                    #[trigger] schedules[m],
                    now,
                ) implies after.contains(schedules[m]) by {
                if m < seen.len() {
                    assert(seen[m] == schedules[m]);
                    assert(before.contains(seen[m]));
                    let k: int = choose|k: int| 0 <= k < before.len() && before[k] == seen[m];
                    if k < p {
                        assert(after[k] == before[k]);
                    } else {
                        assert(after[k + 1] == before[k]);
                    }
                } else {
                    assert(after[p] == def);
                }
            }
            after
        } else {
            assert forall|k: int| 0 <= k < before.len() implies {
                &&& (#[trigger] before[k]).id < schedules.len()
                &&& schedules[before[k].id as int] == before[k]
                &&& is_due(before[k], now)
            } by {
                assert(seen[before[k].id as int] == before[k]);
            }
            assert forall|m: int|
                0 <= m < schedules.len() && is_due(
                    #[trigger] schedules[m],
                    now,
                ) implies before.contains(schedules[m]) by {
                assert(seen[m] == schedules[m]);
            }
            before
        }
    }
}

/// Every registry has a due list at every time, and [`due_list`] is it.
pub proof fn lemma_due_list_exists(schedules: Seq<ScheduleDefinition>, now: u64)
    requires
        schedules_are_sound(schedules),
    ensures
        is_due_list(schedules, now, due_list(schedules, now)),
{
    let list = lemma_build_due_list(schedules, now);
    assert(is_due_list(schedules, now, list));
}

/// The recurring-payment definitions, in the order of their creation.
pub struct ScheduleRegistry {
    schedules: Vec<ScheduleDefinition>,
}

impl View for ScheduleRegistry {
    type V = Seq<ScheduleDefinition>;

    closed spec fn view(&self) -> Seq<ScheduleDefinition> {
        self.schedules@
    }
}

impl ScheduleRegistry {
    /// What holds of every registry: see [`schedules_are_sound`].
    #[verifier::type_invariant]
    pub open spec fn is_sound(&self) -> bool {
        schedules_are_sound(self@)
    }

    /// An empty registry.
    pub fn new() -> (registry: ScheduleRegistry)
        ensures
            registry@ == Seq::<ScheduleDefinition>::empty(),
    {
        ScheduleRegistry { schedules: Vec::new() }
    }

    /// A registry that holds the given definitions, if they can be a
    /// registry's: each at the position its id names, with a valid amount and
    /// period.
    pub fn restore(schedules: Vec<ScheduleDefinition>) -> (registry: Option<ScheduleRegistry>)
        ensures
            registry is Some <==> schedules_are_sound(schedules@),
            registry matches Some(r) ==> r@ == schedules@,
    {
        let mut i: usize = 0;
        while i < schedules.len()
            invariant
                i <= schedules@.len(),
                schedules_are_sound(schedules@.take(i as int)),
            decreases schedules@.len() - i,
        {
            let def = schedules[i];
            if def.id != i as u64 || def.amount <= 0 || def.interval <= 0 {
                return None;
            }
            assert forall|j: int| 0 <= j < i + 1 implies {
                &&& (#[trigger] schedules@.take(i + 1)[j]).id == j
                &&& schedules@.take(i + 1)[j].amount > 0
                &&& schedules@.take(i + 1)[j].interval > 0
            } by {
                if j < i {
                    assert(schedules@.take(i as int)[j] == schedules@.take(i + 1)[j]);
                }
            }
            i = i + 1;
        }
        assert(schedules@.take(i as int) =~= schedules@);
        Some(ScheduleRegistry { schedules })
    }

    /// The definitions, in the order of their creation.
    pub fn schedules(&self) -> (schedules: &Vec<ScheduleDefinition>)
        ensures
            schedules@ == self@,
            schedules_are_sound(schedules@),
    {
        proof {
            use_type_invariant(self);
        }
        &self.schedules
    }

    /// The number of schedules ever created.
    pub fn len(&self) -> (n: usize)
        ensures
            n == self@.len(),
    {
        self.schedules.len()
    }

    /// Moves the definitions out, leaving the registry empty for the moment.
    fn take_all(&mut self) -> (schedules: Vec<ScheduleDefinition>)
        ensures
            schedules@ == old(self)@,
            schedules_are_sound(schedules@),
            final(self)@ == Seq::<ScheduleDefinition>::empty(),
    {
        proof {
            use_type_invariant(&*self);
        }
        let mut schedules: Vec<ScheduleDefinition> = Vec::new();
        core::mem::swap(&mut self.schedules, &mut schedules);
        schedules
    }

    /// Puts definitions in place of the registry's own.
    fn put_all(&mut self, schedules: Vec<ScheduleDefinition>)
        requires
            schedules_are_sound(schedules@),
        ensures
            final(self)@ == schedules@,
    {
        self.schedules = schedules;
    }

    /// Creates an active schedule and returns its definition. The amount and
    /// the period are checked first, in that order; a rejected request leaves
    /// the registry as it was.
    pub fn create(
        &mut self,
        owner: Account,
        payee: Account,
        amount: i128,
        interval: i64,
        next_due: u64,
    ) -> (result: Result<ScheduleDefinition, PaymentError>)
        ensures
            match schedule_verdict(amount, interval) {
                Err(error) => {
                    &&& result == Err::<ScheduleDefinition, PaymentError>(error)
                    &&& final(self)@ == old(self)@
                },
                Ok(_) => {
                    let def = created(old(self)@.len(), owner, payee, amount, interval, next_due);
                    &&& result == Ok::<ScheduleDefinition, PaymentError>(def)
                    &&& final(self)@ == old(self)@.push(def)
                },
            },
    {
        match validate_schedule(amount, interval) {
            Err(error) => Err(error),
            Ok(_) => {
                let mut schedules = self.take_all();
                let def = ScheduleDefinition {
                    id: schedules.len() as u64,
                    owner,
                    payee,
                    amount,
                    interval,
                    next_due,
                    status: ScheduleStatus::Active,
                };
                schedules.push(def);
                self.put_all(schedules);
                Ok(def)
            },
        }
    }

    /// The definition with the given id, if there is one.
    pub fn get(&self, schedule_id: u64) -> (found: Option<ScheduleDefinition>)
        ensures
            found == if schedule_id < self@.len() {
                Some(self@[schedule_id as int])
            } else {
                None
            },
    {
        if schedule_id < self.schedules.len() as u64 {
            Some(self.schedules[schedule_id as usize])
        } else {
            None
        }
    }

    /// Cancels a schedule on behalf of `owner`. Fails with `NotFound` when no
    /// schedule has the id, and with `NotOwner` when the schedule belongs to
    /// another account; either way nothing changes. Otherwise the schedule is
    /// cancelled from now on, also when it was cancelled before.
    pub fn cancel(&mut self, owner: &Account, schedule_id: u64) -> (result: Result<
        (),
        PaymentError,
    >)
        ensures
            result == cancel_verdict(old(self)@, *owner, schedule_id),
            final(self)@ == if result is Ok {
                old(self)@.update(schedule_id as int, cancelled(old(self)@[schedule_id as int]))
            } else {
                old(self)@
            },
    {
        if schedule_id >= self.schedules.len() as u64 {
            return Err(PaymentError::NotFound);
        }
        let index: usize = schedule_id as usize;
        let def = self.schedules[index];
        if !def.owner.same_as(owner) {
            return Err(PaymentError::NotOwner);
        }
        let mut schedules = self.take_all();
        schedules.set(index, ScheduleDefinition { status: ScheduleStatus::Cancelled, ..def });
        self.put_all(schedules);
        Ok(())
    }

    /// Moves the due time of a schedule forward by one period.
    pub(crate) fn advance(&mut self, schedule_id: u64)
        requires
            schedule_id < old(self)@.len(),
            can_advance(old(self)@[schedule_id as int]),
        ensures
            final(self)@ == old(self)@.update(
                schedule_id as int,
                advanced(old(self)@[schedule_id as int]),
            ),
    {
        let mut schedules = self.take_all();
        let count: usize = schedules.len();
        assert(schedule_id < count);
        let index: usize = schedule_id as usize;
        let def = schedules[index];
        assert(def == old(self)@[schedule_id as int] && def.interval > 0);
        let next_due: u64 = def.next_due + def.interval as u64;
        schedules.set(index, ScheduleDefinition { next_due, ..def });
        self.put_all(schedules);
    }

    /// The schedules that are due at `now`, in the order in which they are to
    /// be served: by due time, and among equal due times by creation. The
    /// list is a snapshot; later changes to the registry do not reach it.
    pub fn due_schedules(&self, now: u64) -> (list: Vec<ScheduleDefinition>)
        ensures
            is_due_list(self@, now, list@),
            list@ == due_list(self@, now),
    {
        proof {
            use_type_invariant(self);
        }
        let mut list: Vec<ScheduleDefinition> = Vec::new();
        let mut i: usize = 0;
        while i < self.schedules.len()
            invariant
                i <= self.schedules@.len(),
                schedules_are_sound(self@),
                in_due_order(list@),
                only_due(self@.take(i as int), now, list@),
                all_due(self@.take(i as int), now, list@),
            decreases self.schedules@.len() - i,
        {
            let def = self.schedules[i];
            let ghost before = list@;
            let ghost seen = self@.take(i as int);
            let ghost seen_next = self@.take(i + 1);
            if def.next_due <= now && def.status.is_active() {
                let mut p: usize = 0;
                while p < list.len() && list[p].next_due <= def.next_due
                    invariant
                        p <= list@.len(),
                        forall|j: int|
                            0 <= j < p ==> (#[trigger] list@[j]).next_due <= def.next_due,
                    decreases list@.len() - p,
                {
                    p = p + 1;
                }
                list.insert(p, def);
                proof {
                    let after = list@;
                    assert forall|j: int, k: int| 0 <= j < k < after.len() implies due_before(
                        after[j],
                        after[k],
                    ) by {
                        if k < p {
                            assert(after[j] == before[j] && after[k] == before[k]);
                        } else if k == p {
                            assert(after[j] == before[j]);
                            assert(before[j].id < seen.len());
                        } else if j < p {
                            assert(after[j] == before[j] && after[k] == before[k - 1]);
                        } else if j == p {
                            assert(after[k] == before[k - 1]);
                            if k - 1 > p {
                                assert(due_before(before[p as int], before[k - 1]));
                            }
                        } else {
                            assert(after[j] == before[j - 1] && after[k] == before[k - 1]);
                        }
                    }
                    assert forall|k: int| 0 <= k < after.len() implies {
                        &&& (#[trigger] after[k]).id < seen_next.len()
                        &&& seen_next[after[k].id as int] == after[k]
                        &&& is_due(after[k], now)
                    } by {
                        if k < p {
                            assert(after[k] == before[k]);
                            assert(seen[before[k].id as int] == before[k]);
                        } else if k > p {
                            assert(after[k] == before[k - 1]);
                            assert(seen[before[k - 1].id as int] == before[k - 1]);
                        }
                    }
                    assert forall|m: int|
                        0 <= m < seen_next.len() && is_due(
                            #[trigger] seen_next[m],
                            now,
                        ) implies after.contains(seen_next[m]) by {
                        if m < i {
                            assert(seen[m] == seen_next[m]);
                            assert(before.contains(seen[m]));
                            let k: int = choose|k: int|
                                0 <= k < before.len() && before[k] == seen[m];
                            if k < p {
                                assert(after[k] == before[k]);
                            } else {
                                assert(after[k + 1] == before[k]);
                            }
                        } else {
                            assert(after[p as int] == def);
                        }
                    }
                }
            } else {
                proof {
                    assert forall|k: int| 0 <= k < before.len() implies {
                        &&& (#[trigger] before[k]).id < seen_next.len()
                        &&& seen_next[before[k].id as int] == before[k]
                        &&& is_due(before[k], now)
                    } by {
                        assert(seen[before[k].id as int] == before[k]);
                    }
                    assert forall|m: int|
                        0 <= m < seen_next.len() && is_due(
                            #[trigger] seen_next[m],
                            now,
                        ) implies before.contains(seen_next[m]) by {
                        assert(seen[m] == seen_next[m]);
                    }
                }
            }
            i = i + 1;
        }
        proof {
            assert(self@.take(i as int) =~= self@);
            lemma_due_list_is_unique(self@, now, list@, list@);
        }
        list
    }
}

impl ScheduleStatus {
    /// Whether the schedule still produces payments.
    pub fn is_active(&self) -> (active: bool)
        ensures
            active == (*self == ScheduleStatus::Active),
    {
        match self {
            ScheduleStatus::Active => true,
            ScheduleStatus::Cancelled => false,
        }
    }
}

/// What `cancel` answers for the given registry, caller and id.
pub open spec fn cancel_verdict(
    schedules: Seq<ScheduleDefinition>,
    owner: Account,
    schedule_id: u64,
) -> Result<(), PaymentError> {
    if schedule_id >= schedules.len() {
        Err(PaymentError::NotFound)
    } else if schedules[schedule_id as int].owner != owner {
        Err(PaymentError::NotOwner)
    } else {
        Ok(())
    }
}

} // verus!
