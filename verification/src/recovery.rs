//! How a host brings a scheduled root back, and lets it go again.
//!
//! Only host mechanics are decided here: cold resume, idle lifecycle entry,
//! reconciliation with a loaded runtime, and safe release of roots that were
//! materialized without a subscriber.  Discovery, eligibility, ownership, and
//! retry are the scheduler's.
use vstd::prelude::*;

use crate::goals::ThreadGoalStatus;
use crate::ids::thread_id_text;
use crate::ids::ThreadId;

verus! {

/// The time between looks at a materialized root, in milliseconds.
pub const MATERIALIZED_RELEASE_POLL_INTERVAL_MS: u64 = 1_000;

/// Where the recovery of a scheduled root is.
#[derive(Clone, Copy, Debug, PartialEq, Eq, Structural)]
pub enum RecoveryPhase {
    /// Other changes of the list of threads are being kept out.
    Starting,
    /// Whether the thread is closing is being read.
    Checking,
    /// The thread is being looked up among those that are loaded.
    LookingUp,
    /// A loaded thread is being given a listener.
    AttachingLoaded,
    /// Whether a loaded thread has work of its own to come is being read.
    AskingRetention,
    /// A loaded thread enters the idle lifecycle.
    EnteringLoaded,
    /// The stored history of a thread is being read.
    LoadingHistory,
    /// The configuration of a thread is being read.
    LoadingConfig,
    /// The configuration is being completed with the stored effort.
    PreservingEffort,
    /// The thread is being resumed.
    Resuming,
    /// A resumed thread is being given a listener.
    AttachingResumed,
    /// A resumed thread enters the idle lifecycle.
    EnteringResumed,
    /// The recovery is over.
    Finished,
}

/// What has come of the last action of a recovery.
#[derive(Debug)]
pub enum RecoveryEvent {
    /// Other changes of the list of threads are kept out.
    Permitted,
    /// Whether the thread is closing.
    ClosingRead { is_closing: bool },
    /// Whether the thread is loaded, and stayed the same while it was looked
    /// up.
    LookedUp { is_loaded: bool },
    /// The thread has a listener.
    ListenerAttached,
    /// Whether the thread has work of its own to come.
    RetentionRead { retained: bool },
    /// The thread has entered the idle lifecycle, if it was idle.
    IdleEntered,
    /// The stored history has been read.
    HistoryLoaded,
    /// The configuration has been read.
    ConfigLoaded { has_explicit_model: bool },
    /// The stored effort has been taken over.
    EffortPreserved,
    /// A thread has been resumed.
    Resumed { thread_id: ThreadId },
    /// The last action failed.
    Failed { error: String },
}

/// The mathematical content of a [`RecoveryEvent`].
pub enum RecoveryEventView {
    Permitted,
    ClosingRead(bool),
    LookedUp(bool),
    ListenerAttached,
    RetentionRead(bool),
    IdleEntered,
    HistoryLoaded,
    ConfigLoaded(bool),
    EffortPreserved,
    Resumed(ThreadId),
    Failed(Seq<char>),
}

impl View for RecoveryEvent {
    type V = RecoveryEventView;

    open spec fn view(&self) -> RecoveryEventView {
        match self {
            RecoveryEvent::Permitted => RecoveryEventView::Permitted,
            RecoveryEvent::ClosingRead { is_closing } => RecoveryEventView::ClosingRead(
                *is_closing,
            ),
            RecoveryEvent::LookedUp { is_loaded } => RecoveryEventView::LookedUp(*is_loaded),
            RecoveryEvent::ListenerAttached => RecoveryEventView::ListenerAttached,
            RecoveryEvent::RetentionRead { retained } => RecoveryEventView::RetentionRead(
                *retained,
            ),
            RecoveryEvent::IdleEntered => RecoveryEventView::IdleEntered,
            RecoveryEvent::HistoryLoaded => RecoveryEventView::HistoryLoaded,
            RecoveryEvent::ConfigLoaded { has_explicit_model } => RecoveryEventView::ConfigLoaded(
                *has_explicit_model,
            ),
            RecoveryEvent::EffortPreserved => RecoveryEventView::EffortPreserved,
            RecoveryEvent::Resumed { thread_id } => RecoveryEventView::Resumed(*thread_id),
            RecoveryEvent::Failed { error } => RecoveryEventView::Failed(error@),
        }
    }
}

/// What the host is to do next for a recovery.
#[derive(Debug)]
pub enum RecoveryAction {
    /// Read whether the thread is closing.
    CheckClosing,
    /// Look the thread up among those that are loaded.
    LookUp,
    /// Give the thread a listener.
    AttachListener,
    /// Read whether the loaded thread has work of its own to come.
    ReadRetention,
    /// Enter the idle lifecycle, if the thread is idle.
    EnterIdle,
    /// Read the stored history of the thread.
    LoadHistory,
    /// Read the configuration for the history.
    LoadConfig,
    /// Take over the stored effort where the configuration leaves it unset.
    PreserveEffort,
    /// Resume the thread.
    Resume,
    /// Stop.  Look after the release of a thread that was resumed for this.
    Finish { watch_release: bool },
    /// Stop, and report an error.
    Fail { message: String },
}

/// The mathematical content of a [`RecoveryAction`].
pub enum RecoveryActionView {
    CheckClosing,
    LookUp,
    AttachListener,
    ReadRetention,
    EnterIdle,
    LoadHistory,
    LoadConfig,
    PreserveEffort,
    Resume,
    Finish(bool),
    Fail(Seq<char>),
}

impl View for RecoveryAction {
    type V = RecoveryActionView;

    open spec fn view(&self) -> RecoveryActionView {
        match self {
            RecoveryAction::CheckClosing => RecoveryActionView::CheckClosing,
            RecoveryAction::LookUp => RecoveryActionView::LookUp,
            RecoveryAction::AttachListener => RecoveryActionView::AttachListener,
            RecoveryAction::ReadRetention => RecoveryActionView::ReadRetention,
            RecoveryAction::EnterIdle => RecoveryActionView::EnterIdle,
            RecoveryAction::LoadHistory => RecoveryActionView::LoadHistory,
            RecoveryAction::LoadConfig => RecoveryActionView::LoadConfig,
            RecoveryAction::PreserveEffort => RecoveryActionView::PreserveEffort,
            RecoveryAction::Resume => RecoveryActionView::Resume,
            RecoveryAction::Finish { watch_release } => RecoveryActionView::Finish(*watch_release),
            RecoveryAction::Fail { message } => RecoveryActionView::Fail(message@),
        }
    }
}

/// The mathematical content of a [`Recovery`].
pub struct RecoveryView {
    pub thread_id: ThreadId,
    pub phase: RecoveryPhase,
}

/// The sentence that reports that a thread is closing.
pub open spec fn closing_text(thread_id: ThreadId) -> Seq<char> {
    "thread "@ + thread_id_text(thread_id.value)
        + " is closing; retry goal recovery after it closes"@
}

/// The sentence that reports that another thread was resumed.
pub open spec fn mismatch_text(expected: ThreadId, resumed: ThreadId) -> Seq<char> {
    "goal recovery resumed thread "@ + thread_id_text(resumed.value) + " for expected thread "@
        + thread_id_text(expected.value)
}

/// The sentence that reports a failed action.
pub open spec fn failure_text(phase: RecoveryPhase, error: Seq<char>) -> Seq<char> {
    if phase == RecoveryPhase::Resuming {
        "error resuming thread: "@ + error
    } else {
        error
    }
}

/// Whether an event can come of the action that a phase stands for.
pub open spec fn recovery_event_fits(phase: RecoveryPhase, event: RecoveryEventView) -> bool {
    match event {
        RecoveryEventView::Permitted => phase == RecoveryPhase::Starting,
        RecoveryEventView::ClosingRead(_) => phase == RecoveryPhase::Checking,
        RecoveryEventView::LookedUp(_) => phase == RecoveryPhase::LookingUp,
        RecoveryEventView::ListenerAttached => phase == RecoveryPhase::AttachingLoaded || phase
            == RecoveryPhase::AttachingResumed,
        RecoveryEventView::RetentionRead(_) => phase == RecoveryPhase::AskingRetention,
        RecoveryEventView::IdleEntered => phase == RecoveryPhase::EnteringLoaded || phase
            == RecoveryPhase::EnteringResumed,
        RecoveryEventView::HistoryLoaded => phase == RecoveryPhase::LoadingHistory,
        RecoveryEventView::ConfigLoaded(_) => phase == RecoveryPhase::LoadingConfig,
        RecoveryEventView::EffortPreserved => phase == RecoveryPhase::PreservingEffort,
        RecoveryEventView::Resumed(_) => phase == RecoveryPhase::Resuming,
        RecoveryEventView::Failed(_) => phase != RecoveryPhase::Finished,
    }
}

/// What follows an event that fits.
pub open spec fn recovery_step(state: RecoveryView, event: RecoveryEventView) -> (
    RecoveryView,
    RecoveryActionView,
) {
    let (phase, action) = match event {
        RecoveryEventView::Permitted => (RecoveryPhase::Checking, RecoveryActionView::CheckClosing),
        RecoveryEventView::ClosingRead(is_closing) => if is_closing {
            (RecoveryPhase::Finished, RecoveryActionView::Fail(closing_text(state.thread_id)))
        } else {
            (RecoveryPhase::LookingUp, RecoveryActionView::LookUp)
        },
        RecoveryEventView::LookedUp(is_loaded) => if is_loaded {
            (RecoveryPhase::AttachingLoaded, RecoveryActionView::AttachListener)
        } else {
            (RecoveryPhase::LoadingHistory, RecoveryActionView::LoadHistory)
        },
        RecoveryEventView::ListenerAttached => if state.phase == RecoveryPhase::AttachingLoaded {
            (RecoveryPhase::AskingRetention, RecoveryActionView::ReadRetention)
        } else {
            (RecoveryPhase::EnteringResumed, RecoveryActionView::EnterIdle)
        },
        RecoveryEventView::RetentionRead(retained) => if retained {
            (RecoveryPhase::Finished, RecoveryActionView::Finish(false))
        } else {
            (RecoveryPhase::EnteringLoaded, RecoveryActionView::EnterIdle)
        },
        RecoveryEventView::IdleEntered => (
            RecoveryPhase::Finished,
            RecoveryActionView::Finish(state.phase == RecoveryPhase::EnteringResumed),
        ),
        RecoveryEventView::HistoryLoaded => (
            RecoveryPhase::LoadingConfig,
            RecoveryActionView::LoadConfig,
        ),
        RecoveryEventView::ConfigLoaded(has_explicit_model) => if has_explicit_model {
            (RecoveryPhase::Resuming, RecoveryActionView::Resume)
        } else {
            (RecoveryPhase::PreservingEffort, RecoveryActionView::PreserveEffort)
        },
        RecoveryEventView::EffortPreserved => (RecoveryPhase::Resuming, RecoveryActionView::Resume),
        RecoveryEventView::Resumed(resumed) => if resumed == state.thread_id {
            (RecoveryPhase::AttachingResumed, RecoveryActionView::AttachListener)
        } else {
            (
                RecoveryPhase::Finished,
                RecoveryActionView::Fail(mismatch_text(state.thread_id, resumed)),
            )
        },
        RecoveryEventView::Failed(error) => (
            RecoveryPhase::Finished,
            RecoveryActionView::Fail(failure_text(state.phase, error)),
        ),
    };
    (RecoveryView { phase, ..state }, action)
}

/// Reports that a thread is closing.
pub fn closing_message(thread_id: ThreadId) -> (message: String)
    ensures
        message@ == closing_text(thread_id),
{
    let mut message: String = "thread ".to_string();
    message.append(thread_id.to_text().as_str());
    message.append(" is closing; retry goal recovery after it closes");
    message
}

/// Checks that the thread that was resumed is the scheduled one.
pub fn check_resumed_thread(expected: ThreadId, resumed: ThreadId) -> (checked: Result<(), String>)
    ensures
        (match checked {
            Ok(_) => resumed == expected,
            Err(message) => resumed != expected && message@ == mismatch_text(expected, resumed),
        }),
{
    if resumed == expected {
        return Ok(());
    }
    let mut message: String = "goal recovery resumed thread ".to_string();
    message.append(resumed.to_text().as_str());
    message.append(" for expected thread ");
    message.append(expected.to_text().as_str());
    Err(message)
}

/// The recovery of one scheduled root: from the schedule to the thread's
/// ordinary idle lifecycle.
#[derive(Debug)]
pub struct Recovery {
    thread_id: ThreadId,
    phase: RecoveryPhase,
}

impl View for Recovery {
    type V = RecoveryView;

    closed spec fn view(&self) -> RecoveryView {
        RecoveryView { thread_id: self.thread_id, phase: self.phase }
    }
}

/// A recovery before anything has happened.
pub open spec fn fresh_recovery(thread_id: ThreadId) -> RecoveryView {
    RecoveryView { thread_id, phase: RecoveryPhase::Starting }
}

impl Recovery {
    /// A recovery before anything has happened.  The host is to keep other
    /// changes of the list of threads out until the recovery is over.
    pub fn new(thread_id: ThreadId) -> (recovery: Self)
        ensures
            recovery@ == fresh_recovery(thread_id),
    {
        Recovery { thread_id, phase: RecoveryPhase::Starting }
    }

    /// Where the recovery is.
    pub fn phase(&self) -> (phase: RecoveryPhase)
        ensures
            phase == self@.phase,
    {
        self.phase
    }

    /// Takes note of what came of the last action, and decides what is done
    /// next.
    pub fn advance(&mut self, event: RecoveryEvent) -> (action: RecoveryAction)
        requires
            recovery_event_fits(old(self)@.phase, event@),
        ensures
            (final(self)@, action@) == recovery_step(old(self)@, event@),
    {
        let (phase, action): (RecoveryPhase, RecoveryAction) = match event {
            RecoveryEvent::Permitted => (RecoveryPhase::Checking, RecoveryAction::CheckClosing),
            RecoveryEvent::ClosingRead { is_closing } => if is_closing {
                (
                    RecoveryPhase::Finished,
                    RecoveryAction::Fail { message: closing_message(self.thread_id) },
                )
            } else {
                (RecoveryPhase::LookingUp, RecoveryAction::LookUp)
            },
            RecoveryEvent::LookedUp { is_loaded } => if is_loaded {
                (RecoveryPhase::AttachingLoaded, RecoveryAction::AttachListener)
            } else {
                (RecoveryPhase::LoadingHistory, RecoveryAction::LoadHistory)
            },
            RecoveryEvent::ListenerAttached => if self.phase == RecoveryPhase::AttachingLoaded {
                (RecoveryPhase::AskingRetention, RecoveryAction::ReadRetention)
            } else {
                (RecoveryPhase::EnteringResumed, RecoveryAction::EnterIdle)
            },
            RecoveryEvent::RetentionRead { retained } => if retained {
                // A live helper or a process-local wake already owns the next
                // transition.  To enter the idle lifecycle again would replace
                // its wake.
                (RecoveryPhase::Finished, RecoveryAction::Finish { watch_release: false })
            } else {
                (RecoveryPhase::EnteringLoaded, RecoveryAction::EnterIdle)
            },
            RecoveryEvent::IdleEntered => {
                let watch_release: bool = self.phase == RecoveryPhase::EnteringResumed;
                (RecoveryPhase::Finished, RecoveryAction::Finish { watch_release })
            },
            RecoveryEvent::HistoryLoaded => (
                RecoveryPhase::LoadingConfig,
                RecoveryAction::LoadConfig,
            ),
            RecoveryEvent::ConfigLoaded { has_explicit_model } => if has_explicit_model {
                (RecoveryPhase::Resuming, RecoveryAction::Resume)
            } else {
                (RecoveryPhase::PreservingEffort, RecoveryAction::PreserveEffort)
            },
            RecoveryEvent::EffortPreserved => (RecoveryPhase::Resuming, RecoveryAction::Resume),
            RecoveryEvent::Resumed { thread_id } => match check_resumed_thread(
                self.thread_id,
                thread_id,
            ) {
                Ok(_) => (RecoveryPhase::AttachingResumed, RecoveryAction::AttachListener),
                Err(message) => (RecoveryPhase::Finished, RecoveryAction::Fail { message }),
            },
            RecoveryEvent::Failed { error } => {
                let message: String = if self.phase == RecoveryPhase::Resuming {
                    let mut message: String = "error resuming thread: ".to_string();
                    message.append(error.as_str());
                    message
                } else {
                    error
                };
                (RecoveryPhase::Finished, RecoveryAction::Fail { message })
            },
        };
        self.phase = phase;
        action
    }
}

/// Whether each of some events fits the recovery that the ones before led to.
pub open spec fn events_fit(state: RecoveryView, events: Seq<RecoveryEventView>) -> bool
    decreases events.len(),
{
    if events.len() == 0 {
        true
    } else {
        &&& events_fit(state, events.drop_last())
        &&& recovery_event_fits(
            recovery_after(state, events.drop_last()).phase,
            events.last(),
        )
    }
}

/// The recovery after some events.
pub open spec fn recovery_after(state: RecoveryView, events: Seq<RecoveryEventView>) -> RecoveryView
    decreases events.len(),
{
    if events.len() == 0 {
        state
    } else {
        recovery_step(recovery_after(state, events.drop_last()), events.last()).0
    }
}

/// The actions that some events led to, in order.
pub open spec fn recovery_actions(state: RecoveryView, events: Seq<RecoveryEventView>) -> Seq<
    RecoveryActionView,
>
    decreases events.len(),
{
    if events.len() == 0 {
        Seq::empty()
    } else {
        recovery_actions(state, events.drop_last()).push(
            recovery_step(recovery_after(state, events.drop_last()), events.last()).1,
        )
    }
}

/// Whether a thread has been given a listener by the time of a phase.
spec fn is_attached(phase: RecoveryPhase) -> bool {
    ||| phase == RecoveryPhase::AskingRetention
    ||| phase == RecoveryPhase::EnteringLoaded
    ||| phase == RecoveryPhase::EnteringResumed
}

proof fn attached_was_reported(thread_id: ThreadId, events: Seq<RecoveryEventView>)
    requires
        events_fit(fresh_recovery(thread_id), events),
    ensures
        recovery_after(fresh_recovery(thread_id), events).thread_id == thread_id,
        is_attached(recovery_after(fresh_recovery(thread_id), events).phase) ==> events.contains(
            RecoveryEventView::ListenerAttached,
        ),
    decreases events.len(),
{
    if events.len() > 0 {
        let earlier = events.drop_last();
        attached_was_reported(thread_id, earlier);
        let last = events.len() - 1;
        assert(events[last] == events.last());
        if earlier.contains(RecoveryEventView::ListenerAttached) {
            let j = choose|j: int|
                0 <= j < earlier.len() && earlier[j] == RecoveryEventView::ListenerAttached;
            assert(events[j] == earlier[j]);
        }
    }
}

/// However a recovery goes, a thread enters the idle lifecycle only after it
/// has been given a listener.
pub proof fn idle_is_entered_with_a_listener(thread_id: ThreadId, events: Seq<RecoveryEventView>)
    requires
        events.len() > 0,
        events_fit(fresh_recovery(thread_id), events),
        recovery_actions(fresh_recovery(thread_id), events).last() is EnterIdle,
    ensures
        events.contains(RecoveryEventView::ListenerAttached),
{
    attached_was_reported(thread_id, events);
}

proof fn resumed_was_scheduled(thread_id: ThreadId, events: Seq<RecoveryEventView>)
    requires
        events_fit(fresh_recovery(thread_id), events),
    ensures
        ({
            let phase = recovery_after(fresh_recovery(thread_id), events).phase;
            phase == RecoveryPhase::AttachingResumed || phase == RecoveryPhase::EnteringResumed
                ==> events.contains(RecoveryEventView::Resumed(thread_id))
        }),
    decreases events.len(),
{
    if events.len() > 0 {
        let earlier = events.drop_last();
        attached_was_reported(thread_id, earlier);
        resumed_was_scheduled(thread_id, earlier);
        let last = events.len() - 1;
        assert(events[last] == events.last());
        if earlier.contains(RecoveryEventView::Resumed(thread_id)) {
            let j = choose|j: int|
                0 <= j < earlier.len() && earlier[j] == RecoveryEventView::Resumed(thread_id);
            assert(events[j] == earlier[j]);
        }
    }
}

/// The host looks after the release of exactly those threads that it resumed
/// for their schedule.
pub proof fn only_resumed_threads_are_released(thread_id: ThreadId, events: Seq<RecoveryEventView>)
    requires
        events.len() > 0,
        events_fit(fresh_recovery(thread_id), events),
        recovery_actions(fresh_recovery(thread_id), events).last() is Finish,
    ensures
        recovery_actions(fresh_recovery(thread_id), events).last() == RecoveryActionView::Finish(
            true,
        ) <==> events.contains(RecoveryEventView::Resumed(thread_id)),
{
    let earlier = events.drop_last();
    resumed_was_scheduled(thread_id, earlier);
    if events.contains(RecoveryEventView::Resumed(thread_id)) {
        let j = choose|j: int|
            0 <= j < events.len() && events[j] == RecoveryEventView::Resumed(thread_id);
        assert(j < earlier.len());
        assert(earlier[j] == events[j]);
        loaded_was_not_resumed(thread_id, earlier);
    }
    if earlier.contains(RecoveryEventView::Resumed(thread_id)) {
        let j = choose|j: int|
            0 <= j < earlier.len() && earlier[j] == RecoveryEventView::Resumed(thread_id);
        assert(events[j] == earlier[j]);
    }
}

proof fn loaded_was_not_resumed(thread_id: ThreadId, events: Seq<RecoveryEventView>)
    requires
        events_fit(fresh_recovery(thread_id), events),
        events.contains(RecoveryEventView::Resumed(thread_id)),
    ensures
        ({
            let phase = recovery_after(fresh_recovery(thread_id), events).phase;
            ||| phase == RecoveryPhase::AttachingResumed
            ||| phase == RecoveryPhase::EnteringResumed
            ||| phase == RecoveryPhase::Finished
        }),
    decreases events.len(),
{
    let earlier = events.drop_last();
    attached_was_reported(thread_id, earlier);
    let j = choose|j: int|
        0 <= j < events.len() && events[j] == RecoveryEventView::Resumed(thread_id);
    if j < earlier.len() {
        assert(earlier[j] == events[j]);
        loaded_was_not_resumed(thread_id, earlier);
    }
}

/// A thread that is closing, and a loaded thread that has work of its own to
/// come, do not enter the idle lifecycle: the recovery is over at once.
pub proof fn busy_threads_are_left_alone(state: RecoveryView)
    ensures
        recovery_step(state, RecoveryEventView::ClosingRead(true)) == (
            RecoveryView { phase: RecoveryPhase::Finished, ..state },
            RecoveryActionView::Fail(closing_text(state.thread_id)),
        ),
        recovery_step(state, RecoveryEventView::RetentionRead(true)) == (
            RecoveryView { phase: RecoveryPhase::Finished, ..state },
            RecoveryActionView::Finish(false),
        ),
{
}

/// Nothing follows the end of a recovery; and a recovery ends exactly with the
/// action that says so.
pub proof fn recoveries_end_once(state: RecoveryView, event: RecoveryEventView)
    requires
        recovery_event_fits(state.phase, event),
    ensures
        state.phase != RecoveryPhase::Finished,
        recovery_step(state, event).0.phase == RecoveryPhase::Finished <==> (recovery_step(
            state,
            event,
        ).1 is Finish || recovery_step(state, event).1 is Fail),
{
}

/// What is seen of a root that was materialized without a subscriber.
#[derive(Clone, Copy, Debug, PartialEq, Eq, Structural)]
pub struct MaterializedRoot {
    pub has_subscribers: bool,
    /// Whether the thread that was materialized is still the one that is
    /// loaded.
    pub is_still_loaded: bool,
    /// The status of the thread's goal, if it has one.  `None` if that could
    /// not be read.
    pub goal_status: Option<Option<ThreadGoalStatus>>,
    pub has_reconstructible_snooze: bool,
    pub is_running: bool,
}

/// What is done about a root that was materialized without a subscriber.
#[derive(Clone, Copy, Debug, PartialEq, Eq, Structural)]
pub enum ReleaseStep {
    /// Somebody else looks after it.
    Stop,
    /// Look again later.
    KeepWatching,
    /// Unload it, unless that has become somebody else's business.
    Unload,
}

/// Whether a root has nothing to stay loaded for: its goal is not active, or
/// its next check-in can be reconstructed; and it is not at work.
pub open spec fn is_releasable(root: MaterializedRoot) -> bool {
    &&& root.goal_status is Some
    &&& root.goal_status->0 != Some(ThreadGoalStatus::Active) || root.has_reconstructible_snooze
    &&& !root.is_running
}

/// What is done about a root that was materialized without a subscriber.
pub open spec fn release_step_of(root: MaterializedRoot) -> ReleaseStep {
    if root.has_subscribers || !root.is_still_loaded {
        ReleaseStep::Stop
    } else if is_releasable(root) {
        ReleaseStep::Unload
    } else {
        ReleaseStep::KeepWatching
    }
}

/// Decides what is done about a root that was materialized without a
/// subscriber.
pub fn release_step(root: MaterializedRoot) -> (step: ReleaseStep)
    ensures
        step == release_step_of(root),
{
    if root.has_subscribers || !root.is_still_loaded {
        return ReleaseStep::Stop;
    }
    match root.goal_status {
        None => ReleaseStep::KeepWatching,
        Some(status) => {
            let inactive: bool = match status {
                Some(status) => status != ThreadGoalStatus::Active,
                None => true,
            };
            if (!inactive && !root.has_reconstructible_snooze) || root.is_running {
                ReleaseStep::KeepWatching
            } else {
                ReleaseStep::Unload
            }
        },
    }
}

/// Decides, with unloads held off, whether a root is unloaded after all.
pub fn confirm_unload(has_subscribers: bool, unload_is_pending: bool) -> (unloads: bool)
    ensures
        unloads == (!has_subscribers && !unload_is_pending),
{
    !has_subscribers && !unload_is_pending
}

/// Whether a root is unloaded: it was found releasable, and that was confirmed
/// with unloads held off.
pub open spec fn is_unloaded(
    root: MaterializedRoot,
    has_subscribers: bool,
    unload_is_pending: bool,
) -> bool {
    &&& release_step_of(root) == ReleaseStep::Unload
    &&& !has_subscribers && !unload_is_pending
}

/// A root is never unloaded while somebody subscribes to it, while it is at
/// work, or while only this process knows when its active goal is next looked
/// at.
pub proof fn needed_roots_stay_loaded(
    root: MaterializedRoot,
    has_subscribers: bool,
    unload_is_pending: bool,
)
    requires
        root.has_subscribers || has_subscribers || root.is_running || (root.goal_status == Some(
            Some(ThreadGoalStatus::Active),
        ) && !root.has_reconstructible_snooze),
    ensures
        !is_unloaded(root, has_subscribers, unload_is_pending),
{
}

/// A recovery goes from a look at whether the thread closes to one at whether
/// it is loaded.  A loaded thread gets a listener and, unless it has work of
/// its own to come, enters the idle lifecycle; one that is not loaded is
/// resumed from its history and configuration, under its own identity, and
/// then gets a listener and enters it too.
pub proof fn recovery_takes_its_steps_in_order(state: RecoveryView, resumed: ThreadId)
    ensures
        recovery_step(state, RecoveryEventView::Permitted).1 is CheckClosing,
        recovery_step(state, RecoveryEventView::ClosingRead(false)).1 is LookUp,
        recovery_step(state, RecoveryEventView::ClosingRead(true)).1 is Fail,
        recovery_step(state, RecoveryEventView::LookedUp(true)).1 is AttachListener,
        recovery_step(state, RecoveryEventView::LookedUp(false)).1 is LoadHistory,
        recovery_step(state, RecoveryEventView::HistoryLoaded).1 is LoadConfig,
        recovery_step(state, RecoveryEventView::ConfigLoaded(true)).1 is Resume,
        recovery_step(state, RecoveryEventView::ConfigLoaded(false)).1 is PreserveEffort,
        recovery_step(state, RecoveryEventView::EffortPreserved).1 is Resume,
        recovery_step(state, RecoveryEventView::Resumed(resumed)).1 is AttachListener <==> resumed
            == state.thread_id,
        recovery_step(state, RecoveryEventView::Resumed(resumed)).1 is Fail <==> resumed
            != state.thread_id,
        recovery_step(state, RecoveryEventView::RetentionRead(false)).1 is EnterIdle,
        recovery_step(state, RecoveryEventView::RetentionRead(true)).1
            == RecoveryActionView::Finish(false),
        state.phase == RecoveryPhase::AttachingLoaded ==> recovery_step(
            state,
            RecoveryEventView::ListenerAttached,
        ).1 is ReadRetention,
        state.phase == RecoveryPhase::AttachingResumed ==> recovery_step(
            state,
            RecoveryEventView::ListenerAttached,
        ).1 is EnterIdle,
        state.phase == RecoveryPhase::EnteringLoaded ==> recovery_step(
            state,
            RecoveryEventView::IdleEntered,
        ).1 == RecoveryActionView::Finish(false),
        state.phase == RecoveryPhase::EnteringResumed ==> recovery_step(
            state,
            RecoveryEventView::IdleEntered,
        ).1 == RecoveryActionView::Finish(true),
{
}

/// Each step leaves a recovery in the phase in which the outcome of what is to
/// be done next is told, and of the same thread.
pub proof fn each_phase_awaits_its_action(state: RecoveryView, event: RecoveryEventView)
    requires
        recovery_event_fits(state.phase, event),
    ensures
        ({
            let (after, action) = recovery_step(state, event);
            &&& after.thread_id == state.thread_id
            &&& match action {
                RecoveryActionView::CheckClosing => after.phase == RecoveryPhase::Checking,
                RecoveryActionView::LookUp => after.phase == RecoveryPhase::LookingUp,
                RecoveryActionView::AttachListener => after.phase == if event is LookedUp {
                    RecoveryPhase::AttachingLoaded
                } else {
                    RecoveryPhase::AttachingResumed
                },
                RecoveryActionView::ReadRetention => after.phase == RecoveryPhase::AskingRetention,
                RecoveryActionView::EnterIdle => after.phase == if event is RetentionRead {
                    RecoveryPhase::EnteringLoaded
                } else {
                    RecoveryPhase::EnteringResumed
                },
                RecoveryActionView::LoadHistory => after.phase == RecoveryPhase::LoadingHistory,
                RecoveryActionView::LoadConfig => after.phase == RecoveryPhase::LoadingConfig,
                RecoveryActionView::PreserveEffort => after.phase
                    == RecoveryPhase::PreservingEffort,
                RecoveryActionView::Resume => after.phase == RecoveryPhase::Resuming,
                RecoveryActionView::Finish(_) => after.phase == RecoveryPhase::Finished,
                RecoveryActionView::Fail(_) => after.phase == RecoveryPhase::Finished,
            }
        }),
{
}

/// Each event is told in the phase that awaits it, but for failure, which ends
/// any phase but the last.
pub proof fn recovery_events_come_in_their_phases(
    phase: RecoveryPhase,
    flag: bool,
    id: ThreadId,
    error: Seq<char>,
)
    ensures
        recovery_event_fits(phase, RecoveryEventView::Permitted) <==> phase
            == RecoveryPhase::Starting,
        recovery_event_fits(phase, RecoveryEventView::ClosingRead(flag)) <==> phase
            == RecoveryPhase::Checking,
        recovery_event_fits(phase, RecoveryEventView::LookedUp(flag)) <==> phase
            == RecoveryPhase::LookingUp,
        recovery_event_fits(phase, RecoveryEventView::ListenerAttached) <==> phase
            == RecoveryPhase::AttachingLoaded || phase == RecoveryPhase::AttachingResumed,
        recovery_event_fits(phase, RecoveryEventView::RetentionRead(flag)) <==> phase
            == RecoveryPhase::AskingRetention,
        recovery_event_fits(phase, RecoveryEventView::IdleEntered) <==> phase
            == RecoveryPhase::EnteringLoaded || phase == RecoveryPhase::EnteringResumed,
        recovery_event_fits(phase, RecoveryEventView::HistoryLoaded) <==> phase
            == RecoveryPhase::LoadingHistory,
        recovery_event_fits(phase, RecoveryEventView::ConfigLoaded(flag)) <==> phase
            == RecoveryPhase::LoadingConfig,
        recovery_event_fits(phase, RecoveryEventView::EffortPreserved) <==> phase
            == RecoveryPhase::PreservingEffort,
        recovery_event_fits(phase, RecoveryEventView::Resumed(id)) <==> phase
            == RecoveryPhase::Resuming,
        recovery_event_fits(phase, RecoveryEventView::Failed(error)) <==> phase
            != RecoveryPhase::Finished,
{
}

/// A failure ends the recovery and is reported as it is, but that a failure to
/// resume the thread is said to be one.  A thread that is closing, and one
/// resumed in place of another, are named.
pub proof fn failed_recoveries_report_the_failure(
    state: RecoveryView,
    error: Seq<char>,
    resumed: ThreadId,
)
    ensures
        recovery_step(state, RecoveryEventView::Failed(error)).0.phase == RecoveryPhase::Finished,
        state.phase != RecoveryPhase::Resuming ==> recovery_step(
            state,
            RecoveryEventView::Failed(error),
        ).1 == RecoveryActionView::Fail(error),
        state.phase == RecoveryPhase::Resuming ==> recovery_step(
            state,
            RecoveryEventView::Failed(error),
        ).1 == RecoveryActionView::Fail("error resuming thread: "@ + error),
        recovery_step(state, RecoveryEventView::ClosingRead(true)).1 == RecoveryActionView::Fail(
            "thread "@ + thread_id_text(state.thread_id.value)
                + " is closing; retry goal recovery after it closes"@,
        ),
        resumed != state.thread_id ==> recovery_step(
            state,
            RecoveryEventView::Resumed(resumed),
        ).1 == RecoveryActionView::Fail(
            "goal recovery resumed thread "@ + thread_id_text(resumed.value)
                + " for expected thread "@ + thread_id_text(state.thread_id.value),
        ),
        fresh_recovery(resumed).phase == RecoveryPhase::Starting,
        fresh_recovery(resumed).thread_id == resumed,
{
}

/// A root that was materialized is left to others exactly if somebody
/// subscribes to it or another stands in its place.  Else it is unloaded
/// exactly if its goal's status could be read, it is not at work, and its goal
/// is not active or its next check-in can be reconstructed.
pub proof fn unneeded_roots_are_unloaded(root: MaterializedRoot)
    ensures
        release_step_of(root) == ReleaseStep::Stop <==> root.has_subscribers
            || !root.is_still_loaded,
        release_step_of(root) == ReleaseStep::Unload <==> {
            &&& !root.has_subscribers && root.is_still_loaded && !root.is_running
            &&& match root.goal_status {
                None => false,
                Some(Some(ThreadGoalStatus::Active)) => root.has_reconstructible_snooze,
                Some(_) => true,
            }
        },
        is_unloaded(root, false, false) <==> release_step_of(root) == ReleaseStep::Unload,
        !is_unloaded(root, true, false) && !is_unloaded(root, false, true),
{
}

/// What an event of a recovery says is what the host told.
pub proof fn content_of_a_recovery_event_is_what_was_told(event: RecoveryEvent)
    ensures
        event matches RecoveryEvent::ClosingRead { is_closing } ==> event@
            == RecoveryEventView::ClosingRead(is_closing),
        event matches RecoveryEvent::LookedUp { is_loaded } ==> event@
            == RecoveryEventView::LookedUp(is_loaded),
        event matches RecoveryEvent::RetentionRead { retained } ==> event@
            == RecoveryEventView::RetentionRead(retained),
        event matches RecoveryEvent::ConfigLoaded { has_explicit_model } ==> event@
            == RecoveryEventView::ConfigLoaded(has_explicit_model),
        event matches RecoveryEvent::Resumed { thread_id } ==> event@ == RecoveryEventView::Resumed(
            thread_id,
        ),
        event matches RecoveryEvent::Failed { error } ==> event@ == RecoveryEventView::Failed(
            error@,
        ),
{
}

} // verus!
