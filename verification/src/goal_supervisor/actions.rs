//! What the actions of a helper do to the supervision of its parent.
//!
//! Each action is selected, then the host brings its effect about, then the
//! selection is committed or, if the effect failed, taken back.
use vstd::prelude::*;

use super::failure::event_id;
use super::failure::SupervisorEvent;
use super::runtime::checkin;
use super::runtime::is_active;
use super::runtime::is_due;
use super::runtime::retries_back_off;
use super::runtime::retry_seconds;
use super::runtime::retry_warning;
use super::runtime::retry_warning_text;
use super::runtime::select_error;
use super::runtime::snooze_of;
use super::runtime::with_action;
use super::runtime::with_failure;
use super::runtime::Action;
use super::runtime::CheckinView;
use super::runtime::Runtime;
use super::runtime::RuntimeView;
use super::runtime::SelectError;
use super::runtime::Snooze;
use super::runtime::SnoozeView;
use crate::clock::Moment;
use crate::goals::protocol_goal;
use crate::goals::shows;
use crate::goals::ThreadGoal;
use crate::goals::ThreadGoalView;
use crate::ids::thread_id_text;
use crate::ids::ThreadId;
use crate::storage::next_generation;
use crate::storage::SaffronStore;
use crate::storage::StoreView;
use crate::storage::WakeView;
use crate::text::characters;
use crate::text::same_text;
use crate::text::trim;
use crate::text::trimmed;

verus! {

/// Why a follow-up is refused.
#[derive(Clone, Copy, Debug, PartialEq, Eq, Structural)]
pub enum FollowupError {
    /// There is nothing but whitespace to deliver.
    EmptyMessage,
    /// The helper may not select an action.
    NotSelected(SelectError),
}

impl FollowupError {
    /// The sentence that reports this error.
    pub fn message(&self) -> (message: &'static str)
        ensures
            *self == FollowupError::EmptyMessage ==> message@ == "message must not be empty"@,
            *self == FollowupError::NotSelected(SelectError::NotActive) ==> message@
                == "this supervisor helper is no longer active"@,
            *self == FollowupError::NotSelected(SelectError::AlreadySelected) ==> message@
                == "a supervisor action was already selected for this check-in"@,
            *self == FollowupError::NotSelected(SelectError::EditInFlight) ==> message@
                == "the supervisor goal edit is still in progress"@,
    {
        match self {
            FollowupError::EmptyMessage => "message must not be empty",
            FollowupError::NotSelected(error) => error.message(),
        }
    }
}

/// Selects a follow-up.  Returns the message to deliver to the parent.
pub fn select_followup(runtime: &mut Runtime, helper_id: ThreadId, message: &str) -> (text: Result<
    String,
    FollowupError,
>)
    ensures
        (match text {
            Ok(text) => trimmed(message@).len() > 0 && text@ == trimmed(message@) && select_error(
                old(runtime)@,
                helper_id,
            ) is None && final(runtime)@ == with_action(old(runtime)@, Some(Action::Followup)),
            Err(FollowupError::EmptyMessage) => trimmed(message@).len() == 0 && final(runtime)@
                == old(runtime)@,
            Err(FollowupError::NotSelected(error)) => trimmed(message@).len() > 0 && select_error(
                old(runtime)@,
                helper_id,
            ) == Some(error) && final(runtime)@ == old(runtime)@,
        }),
{
    match notification_text(message) {
        None => Err(FollowupError::EmptyMessage),
        Some(text) => match runtime.select_action(helper_id, Action::Followup) {
            Ok(_) => Ok(text),
            Err(error) => Err(FollowupError::NotSelected(error)),
        },
    }
}

/// The message to deliver to the parent, if it is more than whitespace.
pub fn notification_text(message: &str) -> (text: Option<String>)
    ensures
        (match text {
            Some(text) => text@ == trimmed(message@) && text@.len() > 0,
            None => trimmed(message@).len() == 0,
        }),
{
    let text: &str = trim(message);
    if characters(text).len() == 0 {
        None
    } else {
        Some(text.to_string())
    }
}

/// The supervision after the effect of a selected action succeeded or failed.
pub open spec fn after_effect(
    state: RuntimeView,
    helper_id: ThreadId,
    action: Action,
    succeeded: bool,
) -> RuntimeView {
    if succeeded {
        RuntimeView { previous_action: Some(action), consecutive_failures: 0, ..state }
    } else if is_active(state, helper_id) && state.active->0.action == Some(action) {
        with_action(state, None)
    } else {
        state
    }
}

/// Commits a selected action if its effect succeeded, and else takes it back.
pub fn settle_action(
    runtime: &mut Runtime,
    helper_id: ThreadId,
    action: Action,
    succeeded: bool,
)
    ensures
        final(runtime)@ == after_effect(old(runtime)@, helper_id, action, succeeded),
{
    if succeeded {
        runtime.commit_action(action);
    } else {
        runtime.clear_failed_action(helper_id, action);
    }
}

/// A failed effect leaves no trace: the helper may select again, as before.
pub proof fn failed_effect_leaves_no_trace(
    state: RuntimeView,
    helper_id: ThreadId,
    action: Action,
)
    requires
        select_error(state, helper_id) is None,
    ensures
        after_effect(with_action(state, Some(action)), helper_id, action, false) == state,
{
}

/// Commits a snooze whose wake has been stored.  Returns the generation of the
/// wake that is to be scheduled.
pub fn commit_snooze(runtime: &mut Runtime, snooze: &Snooze, delay_seconds: u64) -> (generation:
    u64)
    ensures
        generation == next_generation(old(runtime)@.wake_generation),
        final(runtime)@ == (RuntimeView {
            snooze: Some(snooze@),
            previous_action: Some(Action::Snooze { delay_seconds }),
            consecutive_failures: 0,
            wake_generation: generation,
            ..old(runtime)@
        }),
{
    runtime.set_snooze(snooze.clone());
    let generation: u64 = runtime.schedule_wake();
    runtime.commit_action(Action::Snooze { delay_seconds });
    generation
}

/// Warns the clients of `thread_id` that a check-in failed and when it is
/// retried.
pub fn retry_event(thread_id: ThreadId, error: &str, delay_seconds: u64) -> (event: SupervisorEvent)
    ensures
        event is Warning,
        event->Warning_id@ == "saffron-supervisor-retry-"@ + thread_id_text(thread_id.value),
        event->message@ == retry_warning_text(error@, delay_seconds),
{
    SupervisorEvent::Warning {
        id: event_id("saffron-supervisor-retry-", thread_id),
        message: retry_warning(error, delay_seconds),
    }
}

/// Counts a failed check-in of `thread_id`.  Returns the time before the
/// retry, in seconds, and what clients are told of it.
pub fn begin_retry(runtime: &mut Runtime, thread_id: ThreadId, error: &str) -> (begun: (
    u64,
    SupervisorEvent,
))
    ensures
        final(runtime)@ == with_failure(old(runtime)@),
        begun.0 == retry_seconds(final(runtime)@.consecutive_failures),
        begun.1 is Warning,
        begun.1->Warning_id@ == "saffron-supervisor-retry-"@ + thread_id_text(thread_id.value),
        begun.1->message@ == retry_warning_text(error@, begun.0),
{
    let delay_seconds: u64 = runtime.count_failure();
    (delay_seconds, retry_event(thread_id, error, delay_seconds))
}

/// The supervision once the retry of a failed check-in has been put off.
pub open spec fn with_retry(state: RuntimeView, snooze: SnoozeView) -> RuntimeView {
    RuntimeView {
        snooze: Some(snooze),
        wake_generation: next_generation(state.wake_generation),
        ..state
    }
}

/// Puts the retry of a failed check-in off, whether or not its wake could be
/// stored.  Returns the generation of the wake that is to be scheduled.
pub fn keep_retry(runtime: &mut Runtime, snooze: &Snooze) -> (generation: u64)
    ensures
        final(runtime)@ == with_retry(old(runtime)@, snooze@),
        generation == final(runtime)@.wake_generation,
{
    runtime.set_snooze(snooze.clone());
    runtime.schedule_wake()
}

/// A failed check-in is retried once its delay has passed, and not before:
/// until then a check-in for the same revision of the goal waits, and after
/// that a helper is started.  The wake of the retry is the one to act on, and
/// none that was scheduled before is.
pub proof fn failed_checkins_are_retried(
    state: RuntimeView,
    goal: ThreadGoalView,
    now_ms: i64,
    now: Moment,
    at: Moment,
    earlier: WakeView,
)
    requires
        state.active is None,
        state.goal_id == Some(goal.goal_id),
        now.nanos + retry_seconds(with_failure(state).consecutive_failures) * 1_000_000_000
            <= u128::MAX,
    ensures
        ({
            let failed = with_failure(state);
            let delay = retry_seconds(failed.consecutive_failures);
            let snooze = snooze_of(goal, delay as u64, now_ms, now);
            let after = with_retry(failed, snooze);
            let next = checkin(after, false, false, false, goal, at).1;
            &&& is_due(after, after.wake_generation, snooze.wake)
            &&& !is_due(after, state.wake_generation, earlier)
            &&& at.nanos < now.nanos + delay * 1_000_000_000 ==> next == CheckinView::Wait(
                None,
                snooze,
                next_generation(after.wake_generation),
            )
            &&& at.nanos >= now.nanos + delay * 1_000_000_000 ==> next == CheckinView::Spawn(None)
        }),
{
    let failures = with_failure(state).consecutive_failures;
    retries_back_off(failures, failures);
}

/// Why the parent cannot be compacted.
pub const PARENT_BECAME_BUSY: &'static str =
    "the parent became busy before compaction could start";

/// Why a goal could not be completed.
pub const CHANGED_BEFORE_COMPLETED: &'static str =
    "the active goal changed before it could be completed";

/// What clients are told once the goal of `thread_id` is complete, given what
/// the conditional update of the goal returned.
pub fn completed_goal_event(thread_id: ThreadId, updated: Option<ThreadGoal>) -> (event: Result<
    SupervisorEvent,
    &'static str,
>)
    ensures
        (match event {
            Err(message) => updated is None && message@ == CHANGED_BEFORE_COMPLETED@,
            Ok(event) => {
                &&& updated is Some
                &&& event is GoalUpdated
                &&& event->GoalUpdated_id@ == "saffron-supervisor-complete-"@ + thread_id_text(
                    thread_id.value,
                )
                &&& event->thread_id == thread_id
                &&& event->turn_id is None
                &&& shows(event->goal, updated->0@)
            },
        }),
{
    match updated {
        None => Err(CHANGED_BEFORE_COMPLETED),
        Some(goal) => Ok(
            SupervisorEvent::GoalUpdated {
                id: event_id("saffron-supervisor-complete-", thread_id),
                thread_id,
                turn_id: None,
                goal: protocol_goal(&goal),
            },
        ),
    }
}

/// Whether the wake of a thread belongs to a goal.
pub open spec fn wake_belongs_to(
    wakes: Map<u128, WakeView>,
    id: ThreadId,
    goal_id: Seq<char>,
) -> bool {
    wakes.dom().contains(id.value) && wakes[id.value].goal_id == goal_id
}

/// Clears the wake of a thread, if it belongs to a goal.
pub fn clear_snooze_for_goal(store: &mut SaffronStore, thread_id: ThreadId, goal_id: &str)
    ensures
        final(store)@ == if wake_belongs_to(old(store)@.wakes, thread_id, goal_id@) {
            StoreView {
                wakes: old(store)@.wakes.remove(thread_id.value),
                generation: next_generation(old(store)@.generation),
                ..old(store)@
            }
        } else {
            old(store)@
        },
{
    if let Some(wake) = store.get_goal_wake(thread_id) {
        if same_text(wake.goal_id.as_str(), goal_id) {
            store.clear_goal_wake(&wake);
        }
    }
}

} // verus!
