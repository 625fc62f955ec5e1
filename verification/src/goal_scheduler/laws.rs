//! What scheduling does with each goal, stated over the goals, the threads and
//! the wakes themselves.
use vstd::prelude::*;

use super::activation::ActivationEvent;
use super::activation::activation_after;
use super::activation::activation_step;
use super::activation::event_fits;
use super::activation::following_retry_interval;
use super::activation::fresh_activation;
use super::activation::wait_before;
use super::activation::ActivationAction;
use super::activation::ActivationEventView;
use super::activation::ActivationPhase;
use super::activation::ActivationView;
use super::ownership::rescheduled;
use super::ownership::running;
use super::ownership::settled;
use super::ownership::to_cancel;
use super::ownership::to_start;
use super::ownership::EntryView;
use super::schedule::active_goals_are_listed;
use super::schedule::eligible_schedules;
use super::schedule::is_eligible;
use super::schedule::record_of;
use super::schedule::scan_after;
use super::schedule::schedule_now;
use super::schedule::schedule_of;
use super::schedule::ScanView;
use super::schedule::ScheduleView;
use super::schedule::ThreadRecord;
use crate::goal_store::active_after;
use crate::goal_store::goal_at;
use crate::goal_store::in_thread_order;
use crate::goals::ThreadGoalStatus;
use crate::goals::ThreadGoalView;
use crate::ids::ThreadId;
use crate::sources::SessionSource;
use crate::sources::ThreadSource;
use crate::storage::WakeView;

verus! {

/// Whether a known thread is left to itself: its goal has been put off, it is
/// archived, or it belongs to a subagent.
pub open spec fn is_left_alone(record: ThreadRecord) -> bool {
    ||| record.continuation_deferred
    ||| record.archived
    ||| record.thread_source == Some(ThreadSource::Subagent)
    ||| record.source matches Some(SessionSource::SubAgent(_))
}

/// Whether a schedule is that of a goal: it has the goal's thread, identity,
/// objective and time of revision, and a deadline exactly if the thread's wake
/// was set for that identity, objective and time; then that of the wake.
pub open spec fn is_schedule_for(
    schedule: ScheduleView,
    goal: ThreadGoalView,
    wakes: Map<u128, WakeView>,
) -> bool {
    let id = goal.thread_id.value;
    &&& schedule.thread_id == goal.thread_id
    &&& schedule.goal_id == goal.goal_id
    &&& schedule.objective == goal.objective
    &&& schedule.updated_at_millis == goal.updated_at_ms
    &&& schedule.wake_at_millis is Some <==> wakes.dom().contains(id) && wakes[id].goal_id
        == goal.goal_id && wakes[id].goal_objective == goal.objective
        && wakes[id].goal_updated_at_ms == goal.updated_at_ms
    &&& schedule.wake_at_millis is Some ==> schedule.wake_at_millis->0 == wakes[id].wake_at_ms
}

/// Whether a goal of the table is to be recovered: it is active, and its
/// thread is known and not left to itself.
pub open spec fn is_to_be_recovered(
    goal: ThreadGoalView,
    threads: Map<u128, ThreadRecord>,
) -> bool {
    &&& goal.status == ThreadGoalStatus::Active
    &&& threads.dom().contains(goal.thread_id.value)
    &&& !is_left_alone(threads[goal.thread_id.value])
}

/// Whether a schedule is that of some goal that is to be recovered.
pub open spec fn comes_from(
    schedule: ScheduleView,
    rows: Seq<ThreadGoalView>,
    wakes: Map<u128, WakeView>,
    threads: Map<u128, ThreadRecord>,
) -> bool {
    exists|k: int|
        0 <= k < rows.len() && is_to_be_recovered(#[trigger] rows[k], threads) && is_schedule_for(
            schedule,
            rows[k],
            wakes,
        )
}

/// Whether some schedule is that of a goal.
pub open spec fn is_among(
    found: Seq<ScheduleView>,
    goal: ThreadGoalView,
    wakes: Map<u128, WakeView>,
) -> bool {
    exists|j: int| 0 <= j < found.len() && is_schedule_for(#[trigger] found[j], goal, wakes)
}

/// A known thread is left out only if its goal has been put off, if it is
/// archived, or if it belongs to a subagent.  What else started its session
/// does not matter.
pub proof fn only_subagents_and_shelved_threads_are_left_out(
    record: ThreadRecord,
    other: ThreadRecord,
)
    ensures
        is_eligible(Some(record)) <==> !is_left_alone(record),
        !is_eligible(None),
        record.continuation_deferred == other.continuation_deferred && record.archived
            == other.archived && (record.thread_source == Some(ThreadSource::Subagent)
            <==> other.thread_source == Some(ThreadSource::Subagent)) && !(
        record.source matches Some(SessionSource::SubAgent(_))) && !(
        other.source matches Some(SessionSource::SubAgent(_))) ==> is_eligible(Some(record))
            == is_eligible(Some(other)),
{
}

proof fn found_of_goals(
    goals: Seq<ThreadGoalView>,
    wakes: Map<u128, WakeView>,
    threads: Map<u128, ThreadRecord>,
)
    requires
        forall|k: int|
            0 <= k < goals.len() ==> (#[trigger] goals[k]).status == ThreadGoalStatus::Active,
    ensures
        forall|k: int|
            0 <= k < goals.len() && is_to_be_recovered(#[trigger] goals[k], threads) ==> is_among(
                eligible_schedules(goals, wakes, threads),
                goals[k],
                wakes,
            ),
        forall|j: int|
            0 <= j < eligible_schedules(goals, wakes, threads).len() ==> comes_from(
                #[trigger] eligible_schedules(goals, wakes, threads)[j],
                goals,
                wakes,
                threads,
            ),
    decreases goals.len(),
{
    if goals.len() > 0 {
        let front = goals.drop_last();
        let last = goals[goals.len() - 1];
        assert forall|k: int| 0 <= k < front.len() implies (#[trigger] front[k]).status
            == ThreadGoalStatus::Active by {
            assert(goals[k].status == ThreadGoalStatus::Active);
        }
        found_of_goals(front, wakes, threads);
        let before = eligible_schedules(front, wakes, threads);
        let after = eligible_schedules(goals, wakes, threads);
        assert(is_schedule_for(schedule_of(last, wakes), last, wakes));
        assert(is_eligible(record_of(threads, last.thread_id)) <==> is_to_be_recovered(
            last,
            threads,
        ));
        assert forall|k: int|
            0 <= k < goals.len() && is_to_be_recovered(
                #[trigger] goals[k],
                threads,
            ) implies is_among(after, goals[k], wakes) by {
            if k < front.len() {
                assert(front[k] == goals[k]);
                let j = choose|j: int|
                    0 <= j < before.len() && is_schedule_for(#[trigger] before[j], front[k], wakes);
                assert(after[j] == before[j]);
            } else {
                assert(after[after.len() - 1] == schedule_of(last, wakes));
            }
        }
        assert forall|j: int| 0 <= j < after.len() implies comes_from(
            #[trigger] after[j],
            goals,
            wakes,
            threads,
        ) by {
            if j < before.len() {
                assert(after[j] == before[j]);
                let k = choose|k: int|
                    0 <= k < front.len() && is_to_be_recovered(#[trigger] front[k], threads)
                        && is_schedule_for(before[j], front[k], wakes);
                assert(goals[k] == front[k]);
            } else {
                assert(after[j] == schedule_of(goals[goals.len() - 1], wakes));
                assert(is_to_be_recovered(goals[goals.len() - 1], threads));
            }
        }
    }
}

/// A scan finds the schedule of every goal that is active and whose thread is
/// known and not left to itself, whatever else is recorded of the thread and
/// however many there are; and it finds no other.
pub proof fn scan_finds_every_goal_to_be_recovered(
    rows: Seq<ThreadGoalView>,
    wakes: Map<u128, WakeView>,
    threads: Map<u128, ThreadRecord>,
)
    requires
        in_thread_order(rows),
    ensures
        forall|k: int|
            0 <= k < rows.len() && is_to_be_recovered(#[trigger] rows[k], threads) ==> is_among(
                eligible_schedules(active_after(rows, None), wakes, threads),
                rows[k],
                wakes,
            ),
        forall|j: int|
            0 <= j < eligible_schedules(active_after(rows, None), wakes, threads).len()
                ==> comes_from(
                #[trigger] eligible_schedules(active_after(rows, None), wakes, threads)[j],
                rows,
                wakes,
                threads,
            ),
{
    let active = active_after(rows, None);
    let found = eligible_schedules(active, wakes, threads);
    active_goals_are_listed(rows, None);
    found_of_goals(active, wakes, threads);
    assert forall|k: int|
        0 <= k < rows.len() && is_to_be_recovered(#[trigger] rows[k], threads) implies is_among(
        found,
        rows[k],
        wakes,
    ) by {
        assert(active.contains(rows[k]));
        let m = choose|m: int| 0 <= m < active.len() && active[m] == rows[k];
        assert(is_to_be_recovered(active[m], threads));
    }
    assert forall|j: int| 0 <= j < found.len() implies comes_from(
        #[trigger] found[j],
        rows,
        wakes,
        threads,
    ) by {
        let m = choose|m: int|
            0 <= m < active.len() && is_to_be_recovered(#[trigger] active[m], threads)
                && is_schedule_for(found[j], active[m], wakes);
        assert(rows.contains(active[m]));
        let k = choose|k: int| 0 <= k < rows.len() && rows[k] == active[m];
        assert(is_to_be_recovered(rows[k], threads));
    }
}

/// A look at one thread gives the schedule of its goal exactly if that is to
/// be recovered.
pub proof fn revalidation_looks_at_the_goal(
    rows: Seq<ThreadGoalView>,
    wakes: Map<u128, WakeView>,
    threads: Map<u128, ThreadRecord>,
    k: int,
)
    requires
        in_thread_order(rows),
        0 <= k < rows.len(),
    ensures
        match schedule_now(rows, wakes, threads, rows[k].thread_id) {
            Some(schedule) => is_to_be_recovered(rows[k], threads) && is_schedule_for(
                schedule,
                rows[k],
                wakes,
            ),
            None => !is_to_be_recovered(rows[k], threads),
        },
{
    goal_at(rows, k);
}

/// A thread without a goal has no schedule.
pub proof fn threads_without_a_goal_are_not_scheduled(
    rows: Seq<ThreadGoalView>,
    wakes: Map<u128, WakeView>,
    threads: Map<u128, ThreadRecord>,
    id: ThreadId,
)
    requires
        forall|k: int| 0 <= k < rows.len() ==> (#[trigger] rows[k]).thread_id != id,
    ensures
        schedule_now(rows, wakes, threads, id) is None,
{
}

/// A scan reads on after the last thread of each page, forgets nothing that it
/// found, and ends with the first page of other than 256 goals.
pub proof fn scan_reads_on_until_a_short_page(
    scan: ScanView,
    page: Seq<ThreadGoalView>,
    wakes: Map<u128, WakeView>,
    threads: Map<u128, ThreadRecord>,
)
    ensures
        ({
            let after = scan_after(scan, page, wakes, threads);
            &&& after.finished <==> page.len() != 256
            &&& page.len() == 0 ==> after.cursor == scan.cursor && after.found == scan.found
            &&& page.len() > 0 ==> after.cursor == Some(page[page.len() - 1].thread_id)
            &&& after.found.len() >= scan.found.len()
            &&& after.found.take(scan.found.len() as int) == scan.found
        }),
{
    let after = scan_after(scan, page, wakes, threads);
    assert(after.found.take(scan.found.len() as int) =~= scan.found);
    if page.len() == 0 {
        assert(after.found =~= scan.found);
    }
}

/// Before its deadline an activation sleeps: until the deadline where that is
/// within half a minute, else for half a minute.  From the deadline on, and
/// without one, it does not.
pub proof fn sleep_ends_at_the_deadline(wake_at: i64, now_ms: i64)
    ensures
        wait_before(None, now_ms) is None,
        wait_before(Some(wake_at), now_ms) is Some <==> now_ms < wake_at,
        now_ms < wake_at <= now_ms + 30_000 ==> wait_before(Some(wake_at), now_ms)->0 == wake_at
            - now_ms,
        wake_at > now_ms + 30_000 ==> wait_before(Some(wake_at), now_ms)->0 == 30_000,
{
}

/// Whether one state of an activation differs from another at most by its
/// phase.
pub open spec fn differs_by_phase(
    after: ActivationView,
    before: ActivationView,
    phase: ActivationPhase,
) -> bool {
    &&& after.schedule == before.schedule
    &&& after.retry_interval_ms == before.retry_interval_ms
    &&& after.phase == phase
}

/// From its deadline on an activation asks for capacity, with that reads its
/// schedule again, and activates the thread if the schedule is unchanged; it
/// is over when the thread was activated, the schedule has changed or no more
/// capacity is given.
pub proof fn activation_proceeds_from_deadline_to_end(
    state: ActivationView,
    now_ms: i64,
    current: Option<ScheduleView>,
)
    ensures
        ({
            let due = match state.schedule.wake_at_millis {
                Some(wake_at) => wake_at <= now_ms,
                None => true,
            };
            let (after, action) = activation_step(state, ActivationEventView::Tick(now_ms));
            if due {
                action == ActivationAction::AcquirePermit && differs_by_phase(
                    after,
                    state,
                    ActivationPhase::Queued,
                )
            } else {
                action is Sleep && after == state && action->Sleep_wait_ms > 0 && now_ms
                    + action->Sleep_wait_ms <= state.schedule.wake_at_millis->0
                    && action->Sleep_wait_ms <= 30_000
            }
        }),
        ({
            let (after, action) = activation_step(state, ActivationEventView::PermitAcquired);
            action == ActivationAction::Revalidate && differs_by_phase(
                after,
                state,
                ActivationPhase::Revalidating,
            )
        }),
        ({
            let (after, action) = activation_step(state, ActivationEventView::Revalidated(current));
            if current is Some && current->0 == state.schedule {
                action == ActivationAction::Activate && differs_by_phase(
                    after,
                    state,
                    ActivationPhase::Activating,
                )
            } else {
                action == ActivationAction::Finish && differs_by_phase(
                    after,
                    state,
                    ActivationPhase::Finished,
                )
            }
        }),
        ({
            let (after, action) = activation_step(state, ActivationEventView::Activated);
            action == ActivationAction::Finish && after.phase == ActivationPhase::Finished
        }),
        ({
            let (after, action) = activation_step(state, ActivationEventView::PermitsClosed);
            action == ActivationAction::Finish && after.phase == ActivationPhase::Finished
        }),
        ({
            let (after, action) = activation_step(state, ActivationEventView::Cancelled);
            action == ActivationAction::Finish && after.phase == ActivationPhase::Finished
        }),
{
}

/// A failure to read the schedule again, or to activate the thread, is retried
/// after the interval that stands; that doubles up to five minutes, and after
/// the interval the activation asks for capacity again.
pub proof fn failures_are_retried_at_doubling_intervals(state: ActivationView)
    ensures
        forall|event: ActivationEventView|
            #![trigger activation_step(state, event)]
            event == ActivationEventView::RevalidationFailed || event
                == ActivationEventView::ActivationFailed ==> {
                let (after, action) = activation_step(state, event);
                &&& action is Retry
                &&& action->Retry_wait_ms == state.retry_interval_ms
                &&& after.phase == ActivationPhase::Retrying
                &&& after.schedule == state.schedule
                &&& state.retry_interval_ms <= 150_000 ==> after.retry_interval_ms
                    == state.retry_interval_ms + state.retry_interval_ms
                &&& state.retry_interval_ms > 150_000 ==> after.retry_interval_ms == 300_000
            },
        ({
            let (after, action) = activation_step(state, ActivationEventView::RetryElapsed);
            action == ActivationAction::AcquirePermit && differs_by_phase(
                after,
                state,
                ActivationPhase::Queued,
            )
        }),
        forall|current: u64|
            #![trigger following_retry_interval(current)]
            (current <= 150_000 ==> following_retry_interval(current) == current + current) && (
            current > 150_000 ==> following_retry_interval(current) == 300_000),
{
}

/// An activation starts out waiting for its deadline, and is first retried
/// after half a minute.
pub proof fn activation_starts_out_waiting(schedule: ScheduleView)
    ensures
        fresh_activation(schedule).schedule == schedule,
        fresh_activation(schedule).phase == ActivationPhase::Waiting,
        fresh_activation(schedule).retry_interval_ms == 30_000,
        activation_after(schedule, Seq::empty()) == fresh_activation(schedule),
{
}

/// Each event is for one phase, but for cancellation, which ends any phase but
/// the last.
pub proof fn events_come_in_their_phases(
    phase: ActivationPhase,
    now_ms: i64,
    current: Option<ScheduleView>,
)
    ensures
        event_fits(phase, ActivationEventView::Tick(now_ms)) <==> phase
            == ActivationPhase::Waiting,
        event_fits(phase, ActivationEventView::PermitAcquired) <==> phase
            == ActivationPhase::Queued,
        event_fits(phase, ActivationEventView::PermitsClosed) <==> phase
            == ActivationPhase::Queued,
        event_fits(phase, ActivationEventView::Revalidated(current)) <==> phase
            == ActivationPhase::Revalidating,
        event_fits(phase, ActivationEventView::RevalidationFailed) <==> phase
            == ActivationPhase::Revalidating,
        event_fits(phase, ActivationEventView::Activated) <==> phase
            == ActivationPhase::Activating,
        event_fits(phase, ActivationEventView::ActivationFailed) <==> phase
            == ActivationPhase::Activating,
        event_fits(phase, ActivationEventView::RetryElapsed) <==> phase
            == ActivationPhase::Retrying,
        event_fits(phase, ActivationEventView::Cancelled) <==> phase
            != ActivationPhase::Finished,
{
}

/// An activation is running for a schedule exactly if an entry for that very
/// schedule has one in flight; the first such entry tells which.
pub proof fn running_is_the_first_in_flight(entries: Seq<EntryView>, schedule: ScheduleView)
    ensures
        match running(entries, schedule) {
            Some(activation) => exists|k: int|
                0 <= k < entries.len() && (#[trigger] entries[k]).schedule == schedule
                    && entries[k].activation == Some(activation) && forall|j: int|
                    0 <= j < k && (#[trigger] entries[j]).schedule == schedule
                        ==> entries[j].activation is None,
            None => forall|k: int|
                0 <= k < entries.len() && (#[trigger] entries[k]).schedule == schedule
                    ==> entries[k].activation is None,
        },
    decreases entries.len(),
{
    if entries.len() > 0 {
        let front = entries.drop_last();
        running_is_the_first_in_flight(front, schedule);
        match running(front, schedule) {
            Some(activation) => {
                let k = choose|k: int|
                    0 <= k < front.len() && (#[trigger] front[k]).schedule == schedule
                        && front[k].activation == Some(activation) && forall|j: int|
                        0 <= j < k && (#[trigger] front[j]).schedule == schedule
                            ==> front[j].activation is None;
                assert(entries[k] == front[k]);
                assert forall|j: int|
                    0 <= j < k && (#[trigger] entries[j]).schedule
                        == schedule implies entries[j].activation is None by {
                    assert(front[j] == entries[j]);
                }
            },
            None => {
                assert forall|j: int|
                    0 <= j < front.len() && (#[trigger] entries[j]).schedule
                        == schedule implies entries[j].activation is None by {
                    assert(front[j] == entries[j]);
                }
                let last = entries[entries.len() - 1];
                if running(entries, schedule) is Some {
                    assert(last.schedule == schedule);
                }
            },
        }
    }
}

/// A scan starts an activation exactly for those schedules that it found and
/// that have none in flight, in the order found, under consecutive new
/// numbers.
pub proof fn exactly_the_idle_schedules_are_started(
    entries: Seq<EntryView>,
    current: Seq<ScheduleView>,
    next: int,
)
    ensures
        forall|j: int|
            0 <= j < to_start(entries, current, next).len() ==> {
                let started = #[trigger] to_start(entries, current, next)[j];
                &&& started.1 == next + j
                &&& current.contains(started.0)
                &&& running(entries, started.0) is None
            },
        forall|k: int|
            0 <= k < current.len() && running(entries, #[trigger] current[k]) is None
                ==> exists|j: int|
                0 <= j < to_start(entries, current, next).len() && (#[trigger] to_start(
                    entries,
                    current,
                    next,
                )[j]).0 == current[k] && rescheduled(entries, current, next)[k].activation == Some(
                    (next + j) as u64,
                ),
        forall|k: int|
            0 <= k < current.len() && running(entries, #[trigger] current[k]) is Some
                ==> rescheduled(entries, current, next)[k].activation == running(
                entries,
                current[k],
            ),
        rescheduled(entries, current, next).len() == current.len(),
    decreases current.len(),
{
    if current.len() > 0 {
        let front = current.drop_last();
        let last = current[current.len() - 1];
        exactly_the_idle_schedules_are_started(entries, front, next);
        let before = to_start(entries, front, next);
        let after = to_start(entries, current, next);
        let kept = rescheduled(entries, front, next);
        let all = rescheduled(entries, current, next);
        assert forall|j: int| 0 <= j < after.len() implies {
            let started = #[trigger] after[j];
            &&& started.1 == next + j
            &&& current.contains(started.0)
            &&& running(entries, started.0) is None
        } by {
            if j < before.len() {
                assert(after[j] == before[j]);
                let k = choose|k: int| 0 <= k < front.len() && front[k] == before[j].0;
                assert(current[k] == before[j].0);
            } else {
                assert(current[current.len() - 1] == after[j].0);
            }
        }
        assert forall|k: int|
            0 <= k < current.len() && running(
                entries,
                #[trigger] current[k],
            ) is None implies exists|j: int|
            0 <= j < after.len() && (#[trigger] after[j]).0 == current[k] && all[k].activation
                == Some((next + j) as u64) by {
            if k < front.len() {
                assert(front[k] == current[k]);
                let j = choose|j: int|
                    0 <= j < before.len() && (#[trigger] before[j]).0 == front[k]
                        && kept[k].activation == Some((next + j) as u64);
                assert(after[j] == before[j]);
                assert(all[k] == kept[k]);
            } else {
                assert(after[before.len() as int].0 == current[k]);
                assert(all[k].activation == Some((next + before.len()) as u64));
            }
        }
        assert forall|k: int|
            0 <= k < current.len() && running(entries, #[trigger] current[k]) is Some implies all[
            k].activation == running(entries, current[k]) by {
            if k < front.len() {
                assert(front[k] == current[k]);
                assert(all[k] == kept[k]);
            }
        }
    }
}

/// A scan cancels exactly the activations in flight for schedules that it did
/// not find.
pub proof fn exactly_the_vanished_are_cancelled(
    entries: Seq<EntryView>,
    current: Seq<ScheduleView>,
    activation: u64,
)
    ensures
        to_cancel(entries, current).contains(activation) <==> exists|k: int|
            0 <= k < entries.len() && (#[trigger] entries[k]).activation == Some(activation)
                && !current.contains(entries[k].schedule),
    decreases entries.len(),
{
    if entries.len() > 0 {
        let front = entries.drop_last();
        let last = entries[entries.len() - 1];
        exactly_the_vanished_are_cancelled(front, current, activation);
        let before = to_cancel(front, current);
        let after = to_cancel(entries, current);
        if before.contains(activation) {
            let j = choose|j: int| 0 <= j < before.len() && before[j] == activation;
            assert(after[j] == activation);
            let k = choose|k: int|
                0 <= k < front.len() && (#[trigger] front[k]).activation == Some(activation)
                    && !current.contains(front[k].schedule);
            assert(entries[k] == front[k]);
        }
        if last.activation == Some(activation) && !current.contains(last.schedule) {
            assert(after[after.len() - 1] == activation);
        }
        if after.contains(activation) && !before.contains(activation) {
            let j = choose|j: int| 0 <= j < after.len() && after[j] == activation;
            if j < before.len() {
                assert(before[j] == activation);
            }
            assert(last.activation == Some(activation));
        }
        if exists|k: int|
            0 <= k < entries.len() && (#[trigger] entries[k]).activation == Some(activation)
                && !current.contains(entries[k].schedule) {
            let k = choose|k: int|
                0 <= k < entries.len() && (#[trigger] entries[k]).activation == Some(activation)
                    && !current.contains(entries[k].schedule);
            if k < front.len() {
                assert(front[k] == entries[k]);
                assert(before.contains(activation));
            }
        }
    }
}

/// When an activation settles, its schedule stays scheduled with nothing in
/// flight, and every other entry is left as it is.
pub proof fn settling_frees_one_schedule(entries: Seq<EntryView>, completed: ScheduleView)
    ensures
        settled(entries, completed).len() == entries.len(),
        forall|k: int|
            0 <= k < entries.len() ==> {
                let entry = #[trigger] settled(entries, completed)[k];
                &&& entry.schedule == entries[k].schedule
                &&& entry.activation == if entries[k].schedule == completed {
                    None
                } else {
                    entries[k].activation
                }
            },
{
}

/// What an event of an activation says is what the host told.
pub proof fn content_of_an_activation_event_is_what_was_told(event: ActivationEvent)
    ensures
        event matches ActivationEvent::Tick { now_ms } ==> event@ == ActivationEventView::Tick(
            now_ms,
        ),
        event matches ActivationEvent::Revalidated { current } ==> event@ is Revalidated && (
        event@->Revalidated_0 is Some <==> current is Some) && (current is Some
            ==> event@->Revalidated_0->0 == current->0@),
{
}

} // verus!
