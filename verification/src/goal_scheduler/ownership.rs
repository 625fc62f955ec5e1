//! What the owner of a home keeps in flight, and how ownership is taken.
use vstd::prelude::*;

use super::activation::SCAN_INTERVAL_MS;
use super::schedule::schedule_views;
use super::schedule::EligibleGoals;
use super::schedule::GoalSchedule;
use super::schedule::ScheduleView;

verus! {

/// How many activations may be at work at a time.
pub const MAX_CONCURRENT_ACTIVATIONS: usize = 4;

/// The file whose lock makes a process the owner.
pub const OWNERSHIP_LOCK_FILE: &'static str = "saffron-goal-scheduler.lock";

/// A goal that is scheduled.
#[derive(Debug)]
struct ScheduledActivation {
    schedule: GoalSchedule,
    /// `None` means that the latest activation settled and the next scan may
    /// probe the host again.  A loaded runtime with a live helper or snooze
    /// leaves such a probe without effect.
    activation: Option<u64>,
}

/// The mathematical content of a scheduled goal.
pub struct EntryView {
    pub schedule: ScheduleView,
    /// The number of the activation in flight.
    pub activation: Option<u64>,
}

/// The mathematical content of a [`Scheduler`].
pub struct SchedulerView {
    pub scheduled: Seq<EntryView>,
    /// The number of the next activation.
    pub next_activation: u64,
}

/// An activation that is to be started.
#[derive(Debug)]
pub struct StartedActivation {
    pub schedule: GoalSchedule,
    pub activation: u64,
}

/// What is to be started and what is to be cancelled after a scan.
#[derive(Debug)]
pub struct Reconciliation {
    pub cancelled: Vec<u64>,
    pub started: Vec<StartedActivation>,
}

/// The activation in flight for a schedule.
pub open spec fn running(entries: Seq<EntryView>, schedule: ScheduleView) -> Option<u64>
    decreases entries.len(),
{
    if entries.len() == 0 {
        None
    } else {
        match running(entries.drop_last(), schedule) {
            Some(activation) => Some(activation),
            None => if entries.last().schedule == schedule {
                entries.last().activation
            } else {
                None
            },
        }
    }
}

/// What is started after a scan found `current`: each schedule that has no
/// activation in flight.
pub open spec fn to_start(
    entries: Seq<EntryView>,
    current: Seq<ScheduleView>,
    next: int,
) -> Seq<(ScheduleView, int)>
    decreases current.len(),
{
    if current.len() == 0 {
        Seq::empty()
    } else {
        let before = to_start(entries, current.drop_last(), next);
        if running(entries, current.last()) is Some {
            before
        } else {
            before.push((current.last(), next + before.len()))
        }
    }
}

/// What is scheduled after a scan found `current`: exactly those schedules,
/// each with an activation in flight.
pub open spec fn rescheduled(
    entries: Seq<EntryView>,
    current: Seq<ScheduleView>,
    next: int,
) -> Seq<EntryView>
    decreases current.len(),
{
    if current.len() == 0 {
        Seq::empty()
    } else {
        let before = rescheduled(entries, current.drop_last(), next);
        let activation = match running(entries, current.last()) {
            Some(activation) => activation,
            None => (next + to_start(entries, current.drop_last(), next).len()) as u64,
        };
        before.push(EntryView { schedule: current.last(), activation: Some(activation) })
    }
}

/// What is cancelled after a scan found `current`: each activation in flight
/// for something else.
pub open spec fn to_cancel(entries: Seq<EntryView>, current: Seq<ScheduleView>) -> Seq<u64>
    decreases entries.len(),
{
    if entries.len() == 0 {
        Seq::empty()
    } else {
        let before = to_cancel(entries.drop_last(), current);
        if entries.last().activation is Some && !current.contains(entries.last().schedule) {
            before.push(entries.last().activation->0)
        } else {
            before
        }
    }
}

/// What is scheduled after an activation of `completed` settled.
pub open spec fn settled(entries: Seq<EntryView>, completed: ScheduleView) -> Seq<EntryView> {
    entries.map_values(
        |entry: EntryView|
            if entry.schedule == completed {
                EntryView { activation: None, ..entry }
            } else {
                entry
            },
    )
}

/// The content of scheduled goals.
spec fn entry_views(entries: Seq<ScheduledActivation>) -> Seq<EntryView> {
    entries.map_values(
        |entry: ScheduledActivation|
            EntryView { schedule: entry.schedule@, activation: entry.activation },
    )
}

/// The content of what is to be started.
pub open spec fn started_views(started: Seq<StartedActivation>) -> Seq<(ScheduleView, int)> {
    started.map_values(
        |started: StartedActivation| (started.schedule@, started.activation as int),
    )
}

/// What the owner of a home has scheduled.
#[derive(Debug)]
pub struct Scheduler {
    scheduled: Vec<ScheduledActivation>,
    next_activation: u64,
}

impl View for Scheduler {
    type V = SchedulerView;

    closed spec fn view(&self) -> SchedulerView {
        SchedulerView {
            scheduled: entry_views(self.scheduled@),
            next_activation: self.next_activation,
        }
    }
}

proof fn running_persists(entries: Seq<EntryView>, schedule: ScheduleView, count: int)
    requires
        0 <= count <= entries.len(),
        running(entries.take(count), schedule) is Some,
    ensures
        running(entries, schedule) == running(entries.take(count), schedule),
    decreases entries.len(),
{
    if count < entries.len() {
        assert(entries.drop_last().take(count) =~= entries.take(count));
        running_persists(entries.drop_last(), schedule, count);
    } else {
        assert(entries.take(count) =~= entries);
    }
}

/// Whether `schedules` holds `schedule`.
fn holds(schedules: &Vec<GoalSchedule>, schedule: &GoalSchedule) -> (found: bool)
    ensures
        found == schedule_views(schedules@).contains(schedule@),
{
    let ghost views = schedule_views(schedules@);
    let mut i: usize = 0;
    while i < schedules.len()
        invariant
            i <= schedules.len(),
            views == schedule_views(schedules@),
            forall|k: int| 0 <= k < i ==> #[trigger] views[k] != schedule@,
        decreases schedules.len() - i,
    {
        assert(views[i as int] == schedules@[i as int]@);
        if schedules[i].same_as(schedule) {
            return true;
        }
        i += 1;
    }
    false
}

impl Scheduler {
    /// Nothing is scheduled.
    pub fn new() -> (scheduler: Self)
        ensures
            scheduler@ == (SchedulerView { scheduled: Seq::empty(), next_activation: 0 }),
    {
        let scheduler = Scheduler { scheduled: Vec::new(), next_activation: 0 };
        proof {
            assert(scheduler@.scheduled =~= Seq::<EntryView>::empty());
        }
        scheduler
    }

    /// The number of the next activation.
    pub fn next_activation(&self) -> (next: u64)
        ensures
            next == self@.next_activation,
    {
        self.next_activation
    }

    /// The activation in flight for a schedule.
    fn running_activation(&self, schedule: &GoalSchedule) -> (activation: Option<u64>)
        ensures
            activation == running(self@.scheduled, schedule@),
    {
        let ghost all = self@.scheduled;
        let mut i: usize = 0;
        while i < self.scheduled.len()
            invariant
                i <= self.scheduled.len(),
                all == entry_views(self.scheduled@),
                running(all.take(i as int), schedule@) is None,
            decreases self.scheduled.len() - i,
        {
            let entry: &ScheduledActivation = &self.scheduled[i];
            proof {
                assert(all.take(i + 1).drop_last() =~= all.take(i as int));
                assert(all.take(i + 1).last() == all[i as int]);
            }
            if entry.schedule.same_as(schedule) {
                if let Some(activation) = entry.activation {
                    proof {
                        running_persists(all, schedule@, i + 1);
                    }
                    return Some(activation);
                }
            }
            i += 1;
        }
        proof {
            assert(all.take(i as int) =~= all);
        }
        None
    }

    /// Makes what is scheduled what a scan found.  What is in flight for an
    /// unchanged schedule stays so.
    pub fn reconcile(&mut self, current: &EligibleGoals) -> (changes: Reconciliation)
        requires
            old(self)@.next_activation + current@.len() <= u64::MAX,
        ensures
            final(self)@.scheduled == rescheduled(
                old(self)@.scheduled,
                current@,
                old(self)@.next_activation as int,
            ),
            changes.cancelled@ == to_cancel(old(self)@.scheduled, current@),
            started_views(changes.started@) == to_start(
                old(self)@.scheduled,
                current@,
                old(self)@.next_activation as int,
            ),
            final(self)@.next_activation == old(self)@.next_activation + changes.started.len(),
    {
        let schedules: &Vec<GoalSchedule> = current.schedules();
        let ghost all = self@.scheduled;
        let ghost found = schedule_views(schedules@);
        let first: u64 = self.next_activation;
        let mut cancelled: Vec<u64> = Vec::new();
        let mut i: usize = 0;
        proof {
            assert(cancelled@ =~= to_cancel(all.take(0), found));
        }
        while i < self.scheduled.len()
            invariant
                i <= self.scheduled.len(),
                all == entry_views(self.scheduled@),
                found == schedule_views(schedules@),
                cancelled@ == to_cancel(all.take(i as int), found),
            decreases self.scheduled.len() - i,
        {
            proof {
                assert(all.take(i + 1).drop_last() =~= all.take(i as int));
                assert(all.take(i + 1).last() == all[i as int]);
            }
            if let Some(activation) = self.scheduled[i].activation {
                if !holds(schedules, &self.scheduled[i].schedule) {
                    cancelled.push(activation);
                }
            }
            i += 1;
        }
        proof {
            assert(all.take(i as int) =~= all);
        }
        let mut started: Vec<StartedActivation> = Vec::new();
        let mut scheduled: Vec<ScheduledActivation> = Vec::new();
        let mut k: usize = 0;
        proof {
            assert(entry_views(scheduled@) =~= rescheduled(all, found.take(0), first as int));
            assert(started_views(started@) =~= to_start(all, found.take(0), first as int));
        }
        while k < schedules.len()
            invariant
                k <= schedules.len(),
                all == self@.scheduled,
                found == schedule_views(schedules@),
                found.len() == schedules.len(),
                first + found.len() <= u64::MAX,
                started.len() <= k,
                entry_views(scheduled@) == rescheduled(all, found.take(k as int), first as int),
                started_views(started@) == to_start(all, found.take(k as int), first as int),
            decreases schedules.len() - k,
        {
            let schedule: &GoalSchedule = &schedules[k];
            proof {
                assert(found.take(k + 1).drop_last() =~= found.take(k as int));
                assert(found.take(k + 1).last() == schedule@);
                assert(started_views(started@).len() == started.len());
            }
            let ghost earlier = scheduled@;
            let ghost starts = started@;
            let activation: u64 = match self.running_activation(schedule) {
                Some(activation) => activation,
                None => {
                    let activation: u64 = first + started.len() as u64;
                    started.push(StartedActivation { schedule: schedule.clone(), activation });
                    proof {
                        assert(started_views(started@) =~= started_views(starts).push(
                            (schedule@, activation as int),
                        ));
                    }
                    activation
                },
            };
            scheduled.push(
                ScheduledActivation { schedule: schedule.clone(), activation: Some(activation) },
            );
            proof {
                assert(entry_views(scheduled@) =~= entry_views(earlier).push(
                    EntryView { schedule: schedule@, activation: Some(activation) },
                ));
            }
            k += 1;
        }
        proof {
            assert(found.take(k as int) =~= found);
        }
        self.scheduled = scheduled;
        self.next_activation = first + started.len() as u64;
        Reconciliation { cancelled, started }
    }

    /// Takes note that an activation of `completed` has settled.
    pub fn complete(&mut self, completed: &GoalSchedule)
        ensures
            final(self)@ == (SchedulerView {
                scheduled: settled(old(self)@.scheduled, completed@),
                ..old(self)@
            }),
    {
        let ghost all = self@.scheduled;
        let ghost target = settled(all, completed@);
        let mut i: usize = 0;
        while i < self.scheduled.len()
            invariant
                i <= self.scheduled.len(),
                self.scheduled.len() == all.len(),
                target == settled(all, completed@),
                self.next_activation == old(self).next_activation,
                forall|k: int|
                    0 <= k < all.len() ==> #[trigger] entry_views(self.scheduled@)[k] == if k < i {
                        target[k]
                    } else {
                        all[k]
                    },
            decreases self.scheduled.len() - i,
        {
            assert(entry_views(self.scheduled@)[i as int] == all[i as int]);
            if self.scheduled[i].schedule.same_as(completed) {
                let ghost before = self.scheduled@;
                let schedule: GoalSchedule = self.scheduled[i].schedule.clone();
                self.scheduled.set(i, ScheduledActivation { schedule, activation: None });
                proof {
                    assert forall|k: int| 0 <= k < all.len() implies #[trigger] entry_views(
                        self.scheduled@,
                    )[k] == if k < i + 1 {
                        target[k]
                    } else {
                        all[k]
                    } by {
                        if k != i {
                            assert(entry_views(before)[k] == entry_views(self.scheduled@)[k]);
                        }
                    }
                }
            }
            i += 1;
        }
        proof {
            assert(self@.scheduled =~= target);
        }
    }
}

/// After a scan, what is scheduled is what was found, and each has an
/// activation in flight.
pub proof fn every_goal_found_is_in_flight(
    entries: Seq<EntryView>,
    current: Seq<ScheduleView>,
    next: int,
)
    ensures
        rescheduled(entries, current, next).len() == current.len(),
        forall|k: int|
            0 <= k < current.len() ==> (#[trigger] rescheduled(entries, current, next)[k]).schedule
                == current[k] && rescheduled(entries, current, next)[k].activation is Some,
    decreases current.len(),
{
    if current.len() > 0 {
        let earlier = current.drop_last();
        every_goal_found_is_in_flight(entries, earlier, next);
        let before = rescheduled(entries, earlier, next);
        let after = rescheduled(entries, current, next);
        assert forall|k: int| 0 <= k < current.len() implies (#[trigger] after[k]).schedule
            == current[k] && after[k].activation is Some by {
            if k < earlier.len() {
                assert(after[k] == before[k]);
                assert(before[k].schedule == earlier[k]);
            }
        }
    }
}

/// What is in flight for an unchanged schedule is neither started again nor
/// cancelled, and stays in flight.
pub proof fn unchanged_goals_are_left_alone(
    entries: Seq<EntryView>,
    current: Seq<ScheduleView>,
    next: int,
    k: int,
)
    requires
        0 <= k < current.len(),
        running(entries, current[k]) is Some,
    ensures
        rescheduled(entries, current, next)[k].activation == running(entries, current[k]),
        forall|j: int|
            0 <= j < to_start(entries, current, next).len() ==> (#[trigger] to_start(
                entries,
                current,
                next,
            )[j]).0 != current[k],
    decreases current.len(),
{
    starts_are_not_running(entries, current, next);
    every_goal_found_is_in_flight(entries, current.drop_last(), next);
    if k < current.len() - 1 {
        unchanged_goals_are_left_alone(entries, current.drop_last(), next, k);
    }
}

proof fn starts_are_not_running(entries: Seq<EntryView>, current: Seq<ScheduleView>, next: int)
    ensures
        forall|j: int|
            0 <= j < to_start(entries, current, next).len() ==> running(
                entries,
                (#[trigger] to_start(entries, current, next)[j]).0,
            ) is None,
    decreases current.len(),
{
    if current.len() > 0 {
        starts_are_not_running(entries, current.drop_last(), next);
    }
}

/// An activation in flight for a schedule that a scan did not find again is
/// cancelled.
pub proof fn vanished_goals_are_cancelled(
    entries: Seq<EntryView>,
    current: Seq<ScheduleView>,
    k: int,
)
    requires
        0 <= k < entries.len(),
        entries[k].activation is Some,
        !current.contains(entries[k].schedule),
    ensures
        to_cancel(entries, current).contains(entries[k].activation->0),
    decreases entries.len(),
{
    let before = to_cancel(entries.drop_last(), current);
    let after = to_cancel(entries, current);
    if k == entries.len() - 1 {
        assert(after[after.len() - 1] == entries[k].activation->0);
    } else {
        vanished_goals_are_cancelled(entries.drop_last(), current, k);
        let j = choose|j: int| 0 <= j < before.len() && before[j] == entries[k].activation->0;
        assert(after[j] == before[j]);
    }
}

/// That an obsolete schedule settled does not end what is in flight for
/// another.
pub proof fn stale_completion_is_ignored(
    entries: Seq<EntryView>,
    completed: ScheduleView,
    other: ScheduleView,
)
    requires
        completed != other,
    ensures
        running(settled(entries, completed), other) == running(entries, other),
    decreases entries.len(),
{
    if entries.len() > 0 {
        stale_completion_is_ignored(entries.drop_last(), completed, other);
        assert(settled(entries, completed).drop_last() =~= settled(
            entries.drop_last(),
            completed,
        ));
    }
}

/// Whether each schedule stands once, and each activation in flight has a
/// number of its own below `next`.
pub open spec fn well_numbered(entries: Seq<EntryView>, next: int) -> bool {
    &&& forall|k: int|
        0 <= k < entries.len() && (#[trigger] entries[k]).activation is Some
            ==> entries[k].activation->0 < next
    &&& forall|j: int, k: int|
        #![trigger entries[j], entries[k]]
        0 <= j < k < entries.len() ==> entries[j].schedule != entries[k].schedule
    &&& forall|j: int, k: int|
        #![trigger entries[j], entries[k]]
        0 <= j < k < entries.len() && entries[j].activation is Some
            ==> entries[j].activation != entries[k].activation
}

/// Whether an activation is in flight.
pub open spec fn in_flight(entries: Seq<EntryView>, activation: u64) -> bool {
    exists|k: int|
        0 <= k < entries.len() && (#[trigger] entries[k]).activation == Some(activation)
}

proof fn running_is_an_entry(entries: Seq<EntryView>, schedule: ScheduleView) -> (k: int)
    requires
        running(entries, schedule) is Some,
    ensures
        0 <= k < entries.len(),
        entries[k].schedule == schedule,
        entries[k].activation == running(entries, schedule),
    decreases entries.len(),
{
    if running(entries.drop_last(), schedule) is Some {
        running_is_an_entry(entries.drop_last(), schedule)
    } else {
        entries.len() - 1
    }
}

proof fn numbers_after_a_scan(entries: Seq<EntryView>, current: Seq<ScheduleView>, next: int)
    requires
        well_numbered(entries, next),
        current.no_duplicates(),
        0 <= next,
        next + current.len() <= u64::MAX,
    ensures
        to_start(entries, current, next).len() <= current.len(),
        well_numbered(
            rescheduled(entries, current, next),
            next + to_start(entries, current, next).len(),
        ),
        forall|k: int|
            0 <= k < current.len() ==> (#[trigger] rescheduled(
                entries,
                current,
                next,
            )[k]).activation->0 >= next || rescheduled(entries, current, next)[k].activation
                == running(entries, current[k]),
    decreases current.len(),
{
    every_goal_found_is_in_flight(entries, current, next);
    if current.len() > 0 {
        let earlier = current.drop_last();
        assert(earlier.no_duplicates());
        numbers_after_a_scan(entries, earlier, next);
        every_goal_found_is_in_flight(entries, earlier, next);
        let before = rescheduled(entries, earlier, next);
        let after = rescheduled(entries, current, next);
        let last = current.len() - 1;
        assert(after =~= before.push(after[last]));
        assert forall|k: int| 0 <= k < last implies after[k] == before[k] && (
        #[trigger] after[k]).schedule == earlier[k] && earlier[k] == current[k] by {
            assert(before[k].schedule == earlier[k]);
        }
        assert forall|j: int|
            0 <= j < last implies (#[trigger] after[j]).activation != after[last].activation by {
            assert(current[j] != current[last]);
            if running(entries, current[last]) is Some {
                let there = running_is_an_entry(entries, current[last]);
                if running(entries, current[j]) is Some {
                    let here = running_is_an_entry(entries, current[j]);
                    assert(entries[here].activation != entries[there].activation);
                }
                assert(entries[there].activation->0 < next);
            }
            assert(before[j].activation is Some);
        }
        let bound = next + to_start(entries, current, next).len();
        if running(entries, current[last]) is Some {
            let there = running_is_an_entry(entries, current[last]);
            assert(entries[there].activation->0 < next);
        }
        assert forall|k: int|
            0 <= k < after.len() && (#[trigger] after[k]).activation is Some implies
            after[k].activation->0 < bound by {
            if k < last {
                assert(before[k].activation->0 < bound);
            }
        }
        assert forall|j: int, k: int|
            #![trigger after[j], after[k]]
            0 <= j < k < after.len() implies after[j].schedule != after[k].schedule by {
            assert(current[j] != current[k]);
        }
        assert forall|j: int, k: int|
            #![trigger after[j], after[k]]
            0 <= j < k < after.len() && after[j].activation is Some implies after[j].activation
            != after[k].activation by {
            if k < last {
                assert(before[j].activation != before[k].activation);
            }
        }
    }
}

/// Reconciliation keeps every activation in flight under a number of its own,
/// which no later activation is given.
pub proof fn reconciliation_keeps_numbers_apart(
    entries: Seq<EntryView>,
    current: Seq<ScheduleView>,
    next: int,
)
    requires
        well_numbered(entries, next),
        current.no_duplicates(),
        0 <= next,
        next + current.len() <= u64::MAX,
    ensures
        well_numbered(
            rescheduled(entries, current, next),
            next + to_start(entries, current, next).len(),
        ),
{
    numbers_after_a_scan(entries, current, next);
}

/// So does completion.
pub proof fn completion_keeps_numbers_apart(
    entries: Seq<EntryView>,
    completed: ScheduleView,
    next: int,
)
    requires
        well_numbered(entries, next),
    ensures
        well_numbered(settled(entries, completed), next),
        running(settled(entries, completed), completed) is None,
{
    let after = settled(entries, completed);
    assert forall|k: int| 0 <= k < after.len() && (#[trigger] after[k]).activation is Some implies
        after[k].activation->0 < next by {
        assert(after[k] == entries[k]);
    }
    assert forall|j: int, k: int|
        #![trigger after[j], after[k]]
        0 <= j < k < after.len() implies after[j].schedule != after[k].schedule by {
        assert(entries[j].schedule != entries[k].schedule);
    }
    assert forall|j: int, k: int|
        #![trigger after[j], after[k]]
        0 <= j < k < after.len() && after[j].activation is Some implies after[j].activation
        != after[k].activation by {
        assert(after[j] == entries[j]);
        assert(entries[j].activation != entries[k].activation);
    }
    if running(after, completed) is Some {
        let k = running_is_an_entry(after, completed);
        assert(entries[k].schedule == completed);
    }
}

/// What a scan cancels is not in flight afterwards.
pub proof fn cancelled_activations_are_gone(
    entries: Seq<EntryView>,
    current: Seq<ScheduleView>,
    next: int,
    activation: u64,
)
    requires
        well_numbered(entries, next),
        current.no_duplicates(),
        0 <= next,
        next + current.len() <= u64::MAX,
        to_cancel(entries, current).contains(activation),
    ensures
        in_flight(entries, activation),
        !in_flight(rescheduled(entries, current, next), activation),
{
    let gone = cancelled_is_an_entry(entries, current, activation);
    let after = rescheduled(entries, current, next);
    numbers_after_a_scan(entries, current, next);
    every_goal_found_is_in_flight(entries, current, next);
    assert forall|k: int| 0 <= k < after.len() implies (#[trigger] after[k]).activation != Some(
        activation,
    ) by {
        if after[k].activation == running(entries, current[k]) {
            let here = running_is_an_entry(entries, current[k]);
            assert(current.contains(current[k]));
            assert(here != gone);
            assert(entries[here].activation != entries[gone].activation);
        }
    }
}

proof fn cancelled_is_an_entry(
    entries: Seq<EntryView>,
    current: Seq<ScheduleView>,
    activation: u64,
) -> (k: int)
    requires
        to_cancel(entries, current).contains(activation),
    ensures
        0 <= k < entries.len(),
        entries[k].activation == Some(activation),
        !current.contains(entries[k].schedule),
    decreases entries.len(),
{
    let all = to_cancel(entries, current);
    let before = to_cancel(entries.drop_last(), current);
    let j = choose|j: int| 0 <= j < all.len() && all[j] == activation;
    if j < before.len() {
        assert(before[j] == activation);
        cancelled_is_an_entry(entries.drop_last(), current, activation)
    } else {
        entries.len() - 1
    }
}

/// What came of the attempt to become the owner of a home.
#[derive(Clone, Copy, Debug, PartialEq, Eq, Structural)]
pub enum OwnershipEvent {
    /// The lock was taken.
    Acquired,
    /// Another process holds the lock.
    Busy,
    /// The lock could not be tried.
    LockFailed,
    /// The owner has opened the store.
    StoreOpened,
    /// The owner could not open the store.
    StoreFailed,
}

/// What a process does about ownership next.
#[derive(Clone, Copy, Debug, PartialEq, Eq, Structural)]
pub enum OwnershipAction {
    /// Open the store.
    OpenStore,
    /// Run as the owner, until stopped.
    RunAsOwner,
    /// Give up any lock, sleep, and try again.
    TryAgain { wait_ms: u64 },
}

/// What a process does about ownership next.
pub fn ownership_step(event: OwnershipEvent) -> (action: OwnershipAction)
    ensures
        action == (match event {
            OwnershipEvent::Acquired => OwnershipAction::OpenStore,
            OwnershipEvent::StoreOpened => OwnershipAction::RunAsOwner,
            _ => OwnershipAction::TryAgain { wait_ms: SCAN_INTERVAL_MS },
        }),
{
    match event {
        OwnershipEvent::Acquired => OwnershipAction::OpenStore,
        OwnershipEvent::StoreOpened => OwnershipAction::RunAsOwner,
        OwnershipEvent::Busy => OwnershipAction::TryAgain { wait_ms: SCAN_INTERVAL_MS },
        OwnershipEvent::LockFailed => OwnershipAction::TryAgain { wait_ms: SCAN_INTERVAL_MS },
        OwnershipEvent::StoreFailed => OwnershipAction::TryAgain { wait_ms: SCAN_INTERVAL_MS },
    }
}

} // verus!
