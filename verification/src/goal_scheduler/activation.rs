//! One activation of a scheduled goal, from its deadline to its end.
//!
//! The host performs the actions and reports what came of them; this module
//! decides what is done next.
use vstd::prelude::*;

use super::schedule::GoalSchedule;
use super::schedule::ScheduleView;

verus! {

/// The time between scans for eligible goals, in milliseconds.
pub const SCAN_INTERVAL_MS: u64 = 30_000;

/// The time before the first retry of a failed activation, in milliseconds.
pub const INITIAL_RETRY_INTERVAL_MS: u64 = 30_000;

/// The longest time before a retry of a failed activation, in milliseconds.
pub const MAX_RETRY_INTERVAL_MS: u64 = 300_000;

/// The lesser of two numbers.
pub open spec fn least(a: int, b: int) -> int {
    if a <= b {
        a
    } else {
        b
    }
}

/// The time before the retry that follows one after `current_ms`.
pub open spec fn following_retry_interval(current_ms: u64) -> u64 {
    least(current_ms * 2, MAX_RETRY_INTERVAL_MS as int) as u64
}

/// The time before the retry that follows one after `current_ms`: twice as
/// long, within the limit.
pub fn next_retry_interval(current_ms: u64) -> (next_ms: u64)
    ensures
        next_ms == following_retry_interval(current_ms),
{
    if current_ms > MAX_RETRY_INTERVAL_MS / 2 {
        MAX_RETRY_INTERVAL_MS
    } else {
        current_ms * 2
    }
}

/// How long to sleep before a deadline is looked at again.  `None` if there is
/// no deadline, or it has passed.
pub open spec fn wait_before(wake_at_millis: Option<i64>, now_ms: i64) -> Option<u64> {
    match wake_at_millis {
        Some(wake_at) => if wake_at > now_ms {
            Some(least(wake_at - now_ms, SCAN_INTERVAL_MS as int) as u64)
        } else {
            None
        },
        None => None,
    }
}

/// How long to sleep before a deadline is looked at again.
pub fn remaining_wait(wake_at_millis: Option<i64>, now_ms: i64) -> (wait_ms: Option<u64>)
    ensures
        wait_ms == wait_before(wake_at_millis, now_ms),
{
    match wake_at_millis {
        Some(wake_at) => {
            let remaining: i128 = wake_at as i128 - now_ms as i128;
            if remaining <= 0 {
                None
            } else if remaining <= SCAN_INTERVAL_MS as i128 {
                Some(remaining as u64)
            } else {
                Some(SCAN_INTERVAL_MS)
            }
        },
        None => None,
    }
}

/// Where an activation is.
#[derive(Clone, Copy, Debug, PartialEq, Eq, Structural)]
pub enum ActivationPhase {
    /// The deadline has not passed.
    Waiting,
    /// There is no capacity yet.
    Queued,
    /// The schedule is being checked again.
    Revalidating,
    /// The host is materializing the thread.
    Activating,
    /// A failed attempt is being waited out.
    Retrying,
    /// The activation is over.
    Finished,
}

/// What has happened to an activation.
#[derive(Debug)]
pub enum ActivationEvent {
    /// It is `now_ms`.
    Tick { now_ms: i64 },
    /// There is capacity for this activation.
    PermitAcquired,
    /// There will be no more capacity.
    PermitsClosed,
    /// This is the schedule of the thread now.
    Revalidated { current: Option<GoalSchedule> },
    /// The schedule of the thread could not be read.
    RevalidationFailed,
    /// The host has materialized the thread.
    Activated,
    /// The host could not materialize the thread.
    ActivationFailed,
    /// The time before the retry has passed.
    RetryElapsed,
    /// The activation is no longer wanted.
    Cancelled,
}

/// The mathematical content of an [`ActivationEvent`].
pub enum ActivationEventView {
    Tick(i64),
    PermitAcquired,
    PermitsClosed,
    Revalidated(Option<ScheduleView>),
    RevalidationFailed,
    Activated,
    ActivationFailed,
    RetryElapsed,
    Cancelled,
}

impl View for ActivationEvent {
    type V = ActivationEventView;

    open spec fn view(&self) -> ActivationEventView {
        match self {
            ActivationEvent::Tick { now_ms } => ActivationEventView::Tick(*now_ms),
            ActivationEvent::PermitAcquired => ActivationEventView::PermitAcquired,
            ActivationEvent::PermitsClosed => ActivationEventView::PermitsClosed,
            ActivationEvent::Revalidated { current } => ActivationEventView::Revalidated(
                match current {
                    Some(current) => Some(current@),
                    None => None,
                },
            ),
            ActivationEvent::RevalidationFailed => ActivationEventView::RevalidationFailed,
            ActivationEvent::Activated => ActivationEventView::Activated,
            ActivationEvent::ActivationFailed => ActivationEventView::ActivationFailed,
            ActivationEvent::RetryElapsed => ActivationEventView::RetryElapsed,
            ActivationEvent::Cancelled => ActivationEventView::Cancelled,
        }
    }
}

/// What the host is to do next.
#[derive(Clone, Copy, Debug, PartialEq, Eq, Structural)]
pub enum ActivationAction {
    /// Sleep, then tell the time.
    Sleep { wait_ms: u64 },
    /// Wait for capacity.
    AcquirePermit,
    /// Read the schedule of the thread.
    Revalidate,
    /// Materialize the thread.
    Activate,
    /// Give the capacity back, then sleep.
    Retry { wait_ms: u64 },
    /// Give the capacity back, and stop.
    Finish,
}

/// The mathematical content of an [`Activation`].
pub struct ActivationView {
    pub schedule: ScheduleView,
    pub phase: ActivationPhase,
    pub retry_interval_ms: u64,
}

/// Whether an event can happen in a phase.
pub open spec fn event_fits(phase: ActivationPhase, event: ActivationEventView) -> bool {
    match event {
        ActivationEventView::Tick(_) => phase == ActivationPhase::Waiting,
        ActivationEventView::PermitAcquired => phase == ActivationPhase::Queued,
        ActivationEventView::PermitsClosed => phase == ActivationPhase::Queued,
        ActivationEventView::Revalidated(_) => phase == ActivationPhase::Revalidating,
        ActivationEventView::RevalidationFailed => phase == ActivationPhase::Revalidating,
        ActivationEventView::Activated => phase == ActivationPhase::Activating,
        ActivationEventView::ActivationFailed => phase == ActivationPhase::Activating,
        ActivationEventView::RetryElapsed => phase == ActivationPhase::Retrying,
        ActivationEventView::Cancelled => phase != ActivationPhase::Finished,
    }
}

/// What follows an event.
pub open spec fn activation_step(state: ActivationView, event: ActivationEventView) -> (
    ActivationView,
    ActivationAction,
) {
    let over = (
        ActivationView { phase: ActivationPhase::Finished, ..state },
        ActivationAction::Finish,
    );
    let retry = (
        ActivationView {
            phase: ActivationPhase::Retrying,
            retry_interval_ms: following_retry_interval(state.retry_interval_ms),
            ..state
        },
        ActivationAction::Retry { wait_ms: state.retry_interval_ms },
    );
    let queue = (
        ActivationView { phase: ActivationPhase::Queued, ..state },
        ActivationAction::AcquirePermit,
    );
    match event {
        ActivationEventView::Tick(now_ms) => match wait_before(
            state.schedule.wake_at_millis,
            now_ms,
        ) {
            Some(wait_ms) => (state, ActivationAction::Sleep { wait_ms }),
            None => queue,
        },
        ActivationEventView::PermitAcquired => (
            ActivationView { phase: ActivationPhase::Revalidating, ..state },
            ActivationAction::Revalidate,
        ),
        ActivationEventView::Revalidated(current) => if current == Some(state.schedule) {
            (
                ActivationView { phase: ActivationPhase::Activating, ..state },
                ActivationAction::Activate,
            )
        } else {
            over
        },
        ActivationEventView::RevalidationFailed => retry,
        ActivationEventView::ActivationFailed => retry,
        ActivationEventView::RetryElapsed => queue,
        ActivationEventView::PermitsClosed => over,
        ActivationEventView::Activated => over,
        ActivationEventView::Cancelled => over,
    }
}

/// One activation of a scheduled goal.
#[derive(Debug)]
pub struct Activation {
    schedule: GoalSchedule,
    phase: ActivationPhase,
    retry_interval_ms: u64,
}

impl View for Activation {
    type V = ActivationView;

    closed spec fn view(&self) -> ActivationView {
        ActivationView {
            schedule: self.schedule@,
            phase: self.phase,
            retry_interval_ms: self.retry_interval_ms,
        }
    }
}

/// The activation of a schedule before anything has happened.
pub open spec fn fresh_activation(schedule: ScheduleView) -> ActivationView {
    ActivationView {
        schedule,
        phase: ActivationPhase::Waiting,
        retry_interval_ms: INITIAL_RETRY_INTERVAL_MS,
    }
}

impl Activation {
    /// An activation before anything has happened.
    pub fn new(schedule: GoalSchedule) -> (activation: Self)
        ensures
            activation@ == fresh_activation(schedule@),
    {
        Activation {
            schedule,
            phase: ActivationPhase::Waiting,
            retry_interval_ms: INITIAL_RETRY_INTERVAL_MS,
        }
    }

    /// What is being activated.
    pub fn schedule(&self) -> (schedule: &GoalSchedule)
        ensures
            schedule@ == self@.schedule,
    {
        &self.schedule
    }

    /// Where the activation is.
    pub fn phase(&self) -> (phase: ActivationPhase)
        ensures
            phase == self@.phase,
    {
        self.phase
    }

    /// Ends the activation.
    fn finish(&mut self) -> (action: ActivationAction)
        ensures
            final(self)@ == (ActivationView { phase: ActivationPhase::Finished, ..old(self)@ }),
            action == ActivationAction::Finish,
    {
        self.phase = ActivationPhase::Finished;
        ActivationAction::Finish
    }

    /// Puts the next attempt off.
    fn retry(&mut self) -> (action: ActivationAction)
        ensures
            final(self)@ == (ActivationView {
                phase: ActivationPhase::Retrying,
                retry_interval_ms: following_retry_interval(old(self)@.retry_interval_ms),
                ..old(self)@
            }),
            action == (ActivationAction::Retry { wait_ms: old(self)@.retry_interval_ms }),
    {
        let wait_ms: u64 = self.retry_interval_ms;
        self.phase = ActivationPhase::Retrying;
        self.retry_interval_ms = next_retry_interval(wait_ms);
        ActivationAction::Retry { wait_ms }
    }

    /// Takes note of an event, and decides what is done next.
    pub fn advance(&mut self, event: ActivationEvent) -> (action: ActivationAction)
        requires
            event_fits(old(self)@.phase, event@),
        ensures
            (final(self)@, action) == activation_step(old(self)@, event@),
    {
        match event {
            ActivationEvent::Tick { now_ms } => {
                match remaining_wait(self.schedule.wake_at_millis(), now_ms) {
                    Some(wait_ms) => ActivationAction::Sleep { wait_ms },
                    None => {
                        self.phase = ActivationPhase::Queued;
                        ActivationAction::AcquirePermit
                    },
                }
            },
            ActivationEvent::PermitAcquired => {
                self.phase = ActivationPhase::Revalidating;
                ActivationAction::Revalidate
            },
            ActivationEvent::Revalidated { current } => {
                let unchanged: bool = match &current {
                    Some(current) => current.same_as(&self.schedule),
                    None => false,
                };
                if unchanged {
                    self.phase = ActivationPhase::Activating;
                    ActivationAction::Activate
                } else {
                    self.finish()
                }
            },
            ActivationEvent::RevalidationFailed => self.retry(),
            ActivationEvent::ActivationFailed => self.retry(),
            ActivationEvent::RetryElapsed => {
                self.phase = ActivationPhase::Queued;
                ActivationAction::AcquirePermit
            },
            ActivationEvent::PermitsClosed => self.finish(),
            ActivationEvent::Activated => self.finish(),
            ActivationEvent::Cancelled => self.finish(),
        }
    }
}

/// The activation of a schedule after events.
pub open spec fn activation_after(
    schedule: ScheduleView,
    events: Seq<ActivationEventView>,
) -> ActivationView
    decreases events.len(),
{
    if events.len() == 0 {
        fresh_activation(schedule)
    } else {
        activation_step(activation_after(schedule, events.drop_last()), events.last()).0
    }
}

/// Whether each event can happen where it does.
pub open spec fn events_fit(schedule: ScheduleView, events: Seq<ActivationEventView>) -> bool {
    forall|k: int|
        0 <= k < events.len() ==> event_fits(
            activation_after(schedule, events.take(k)).phase,
            #[trigger] events[k],
        )
}

/// Whether an event tells a time at which a deadline has passed.
pub open spec fn tells_deadline_passed(schedule: ScheduleView, event: ActivationEventView) -> bool {
    event is Tick && (schedule.wake_at_millis is None || event->Tick_0
        >= schedule.wake_at_millis->0)
}

/// An activation leaves the wait only once its deadline has passed: no
/// capacity is asked for, nothing is revalidated and nothing activated before.
pub proof fn nothing_happens_before_the_deadline(
    schedule: ScheduleView,
    events: Seq<ActivationEventView>,
)
    requires
        events_fit(schedule, events),
    ensures
        activation_after(schedule, events).schedule == schedule,
        ({
            let phase = activation_after(schedule, events).phase;
            phase == ActivationPhase::Waiting || phase == ActivationPhase::Finished || exists|k:
                int|
                0 <= k < events.len() && tells_deadline_passed(schedule, #[trigger] events[k])
        }),
    decreases events.len(),
{
    if events.len() > 0 {
        let earlier = events.drop_last();
        assert forall|k: int| 0 <= k < earlier.len() implies event_fits(
            activation_after(schedule, earlier.take(k)).phase,
            #[trigger] earlier[k],
        ) by {
            assert(earlier.take(k) =~= events.take(k));
            assert(earlier[k] == events[k]);
        }
        nothing_happens_before_the_deadline(schedule, earlier);
        let before = activation_after(schedule, earlier);
        assert(events.take(events.len() - 1) =~= earlier);
        assert(event_fits(before.phase, events[events.len() - 1]));
        if before.phase == ActivationPhase::Waiting {
            if tells_deadline_passed(schedule, events.last()) {
                assert(tells_deadline_passed(schedule, events[events.len() - 1]));
            }
        } else if before.phase != ActivationPhase::Finished {
            let k = choose|k: int|
                0 <= k < earlier.len() && tells_deadline_passed(schedule, #[trigger] earlier[k]);
            assert(tells_deadline_passed(schedule, events[k]));
        }
    }
}

/// A thread is activated only when the schedule has just been read again and
/// is still the one that was queued.
pub proof fn only_current_schedules_are_activated(state: ActivationView, event: ActivationEventView)
    requires
        event_fits(state.phase, event),
    ensures
        activation_step(state, event).1 == ActivationAction::Activate <==> event
            == ActivationEventView::Revalidated(Some(state.schedule)),
{
}

/// After cancellation, and after any end, nothing more is done.
pub proof fn cancellation_is_final(
    state: ActivationView,
    event: ActivationEventView,
    later: ActivationEventView,
)
    requires
        event == ActivationEventView::Cancelled || state.phase == ActivationPhase::Finished,
        event_fits(state.phase, event),
    ensures
        activation_step(state, event).1 == ActivationAction::Finish,
        !event_fits(activation_step(state, event).0.phase, later),
{
}

/// Retries wait at least as long as the ones before, and never longer than the
/// limit.
pub proof fn retries_back_off_within_bounds(
    schedule: ScheduleView,
    events: Seq<ActivationEventView>,
)
    ensures
        INITIAL_RETRY_INTERVAL_MS <= activation_after(schedule, events).retry_interval_ms
            <= MAX_RETRY_INTERVAL_MS,
        events.len() > 0 ==> activation_after(schedule, events.drop_last()).retry_interval_ms
            <= activation_after(schedule, events).retry_interval_ms,
    decreases events.len(),
{
    if events.len() > 0 {
        retries_back_off_within_bounds(schedule, events.drop_last());
    }
}

} // verus!
