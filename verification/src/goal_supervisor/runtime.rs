//! The state of one root thread's supervision, and its transitions.
use vstd::prelude::*;

use super::failure::TerminalFailure;
use crate::clock::Moment;
use crate::goal_scheduler::activation::least;
use crate::goal_scheduler::schedule::schedule_of;
use crate::goal_scheduler::schedule::stored_wake_is_the_deadline;
use crate::goal_scheduler::schedule::wake_is_for;
use crate::goals::revision_of;
use crate::goals::RevisionView;
use crate::goals::ThreadGoal;
use crate::goals::ThreadGoalRevision;
use crate::goals::ThreadGoalStatus;
use crate::goals::ThreadGoalView;
use crate::ids::ThreadId;
use crate::storage::next_generation;
use crate::storage::notify_wake_changed;
use crate::storage::GoalWake;
use crate::storage::WakeView;
use crate::text::decimal;
use crate::text::decimal_text;
use crate::text::same_text;

verus! {

/// The time before the first retry of a failed check-in, in seconds.
pub const INITIAL_FAILURE_RETRY_SECONDS: u64 = 60;

/// The longest time before a retry of a failed check-in, in seconds.
pub const MAX_FAILURE_RETRY_SECONDS: u64 = 3600;

/// Whether a check-in has to keep its session resident.
#[derive(Clone, Copy, Debug, PartialEq, Eq, Structural)]
pub enum IdleRetention {
    /// Only this process knows of the wake.
    Required,
    /// The wake can be reconstructed from what is stored.
    Reconstructible,
}

/// A deferred check-in.
#[derive(Debug)]
pub struct Snooze {
    pub wake: GoalWake,
    pub deadline: Moment,
    pub idle_retention: IdleRetention,
}

/// The mathematical content of a [`Snooze`].
pub struct SnoozeView {
    pub wake: WakeView,
    pub deadline: Moment,
    pub idle_retention: IdleRetention,
}

impl View for Snooze {
    type V = SnoozeView;

    open spec fn view(&self) -> SnoozeView {
        SnoozeView {
            wake: self.wake@,
            deadline: self.deadline,
            idle_retention: self.idle_retention,
        }
    }
}

impl Clone for Snooze {
    fn clone(&self) -> (copy: Self)
        ensures
            copy@ == self@,
    {
        Snooze {
            wake: self.wake.clone(),
            deadline: self.deadline,
            idle_retention: self.idle_retention,
        }
    }
}

/// A check-in for a goal that is deferred by `delay_seconds`, at `now_ms` of
/// the wall clock and `now` of the monotonic clock.
pub open spec fn snooze_of(
    goal: ThreadGoalView,
    delay_seconds: u64,
    now_ms: i64,
    now: Moment,
) -> SnoozeView {
    SnoozeView {
        wake: WakeView {
            thread_id: goal.thread_id,
            goal_id: goal.goal_id,
            goal_objective: goal.objective,
            goal_updated_at_ms: goal.updated_at_ms,
            wake_at_ms: least(
                now_ms + least(delay_seconds * 1000, i64::MAX as int),
                i64::MAX as int,
            ) as i64,
        },
        deadline: Moment { nanos: (now.nanos + delay_seconds * 1_000_000_000) as u128 },
        idle_retention: IdleRetention::Required,
    }
}

impl Snooze {
    /// Defers the check-in for a goal.
    pub fn for_goal(goal: &ThreadGoal, delay_seconds: u64, now_ms: i64, now: Moment) -> (snooze:
        Self)
        requires
            now.nanos + delay_seconds * 1_000_000_000 <= u128::MAX,
        ensures
            snooze@ == snooze_of(goal@, delay_seconds, now_ms, now),
    {
        let delay_ms: i128 = if delay_seconds as i128 * 1000 <= i64::MAX as i128 {
            delay_seconds as i128 * 1000
        } else {
            i64::MAX as i128
        };
        let wake_at: i128 = now_ms as i128 + delay_ms;
        Snooze {
            wake: GoalWake {
                thread_id: goal.thread_id,
                goal_id: goal.goal_id.clone(),
                goal_objective: goal.objective.clone(),
                goal_updated_at_ms: goal.updated_at_ms,
                wake_at_ms: if wake_at <= i64::MAX as i128 {
                    wake_at as i64
                } else {
                    i64::MAX
                },
            },
            deadline: Moment { nanos: now.nanos + delay_seconds as u128 * 1_000_000_000 },
            idle_retention: IdleRetention::Required,
        }
    }

    /// The same deferred check-in, which can be reconstructed from what is
    /// stored.
    pub fn reconstructible(self) -> (snooze: Self)
        ensures
            snooze@ == (SnoozeView { idle_retention: IdleRetention::Reconstructible, ..self@ }),
    {
        Snooze {
            wake: self.wake,
            deadline: self.deadline,
            idle_retention: IdleRetention::Reconstructible,
        }
    }
}

/// What a helper decided.
#[derive(Clone, Copy, Debug, PartialEq, Eq, Structural)]
pub enum Action {
    Followup,
    Snooze { delay_seconds: u64 },
    Compact,
    Complete,
}

/// Where the one goal edit of a helper is.
#[derive(Clone, Copy, Debug, PartialEq, Eq, Structural)]
pub enum GoalEditState {
    Available,
    InFlight,
    Committed,
}

/// The helper at work.
#[derive(Debug)]
struct ActiveHelper {
    thread_id: ThreadId,
    goal_revision: ThreadGoalRevision,
    edit_state: GoalEditState,
    action: Option<Action>,
}

/// The mathematical content of the helper at work.
pub struct HelperView {
    pub thread_id: ThreadId,
    pub goal_revision: RevisionView,
    pub edit_state: GoalEditState,
    pub action: Option<Action>,
}

impl View for ActiveHelper {
    type V = HelperView;

    closed spec fn view(&self) -> HelperView {
        HelperView {
            thread_id: self.thread_id,
            goal_revision: self.goal_revision@,
            edit_state: self.edit_state,
            action: self.action,
        }
    }
}

/// Ephemeral state attached to the supervised parent thread.
#[derive(Debug)]
pub struct Runtime {
    goal_id: Option<String>,
    active: Option<ActiveHelper>,
    snooze: Option<Snooze>,
    consecutive_failures: u32,
    previous_action: Option<Action>,
    wake_generation: u64,
}

/// The mathematical content of a [`Runtime`].
pub struct RuntimeView {
    pub goal_id: Option<Seq<char>>,
    pub active: Option<HelperView>,
    pub snooze: Option<SnoozeView>,
    pub consecutive_failures: u32,
    pub previous_action: Option<Action>,
    pub wake_generation: u64,
}

impl View for Runtime {
    type V = RuntimeView;

    closed spec fn view(&self) -> RuntimeView {
        RuntimeView {
            goal_id: match self.goal_id {
                Some(goal_id) => Some(goal_id@),
                None => None,
            },
            active: match self.active {
                Some(active) => Some(active@),
                None => None,
            },
            snooze: match self.snooze {
                Some(snooze) => Some(snooze@),
                None => None,
            },
            consecutive_failures: self.consecutive_failures,
            previous_action: self.previous_action,
            wake_generation: self.wake_generation,
        }
    }
}

/// What a session has to be kept resident for while it is idle.
#[derive(Clone, Copy, Debug, PartialEq, Eq, Structural)]
pub enum IdleDisposition {
    /// Nothing.
    Quiescent,
    /// Work that only this process knows of.
    ProcessLocalWork,
    /// Nothing: there is only a wake that can be reconstructed.
    ReconstructibleSnooze,
}

/// What the next check-in is to be.
#[derive(Debug)]
pub enum CheckinStep {
    /// The parent is no root thread; its goal continues in the ordinary way.
    NotRoot,
    /// The parent is at work or about to be.
    Busy,
    /// A helper is at work for the goal.
    AlreadySupervised,
    /// Retire a helper, if one is named, and wait for a deferred check-in.
    Wait { retire: Option<ThreadId>, snooze: Snooze, generation: u64 },
    /// Retire a helper, if one is named, and start another.
    Spawn { retire: Option<ThreadId> },
}

/// The mathematical content of a [`CheckinStep`].
pub enum CheckinView {
    NotRoot,
    Busy,
    AlreadySupervised,
    Wait(Option<ThreadId>, SnoozeView, u64),
    Spawn(Option<ThreadId>),
}

impl View for CheckinStep {
    type V = CheckinView;

    open spec fn view(&self) -> CheckinView {
        match self {
            CheckinStep::NotRoot => CheckinView::NotRoot,
            CheckinStep::Busy => CheckinView::Busy,
            CheckinStep::AlreadySupervised => CheckinView::AlreadySupervised,
            CheckinStep::Wait { retire, snooze, generation } => CheckinView::Wait(
                *retire,
                snooze@,
                *generation,
            ),
            CheckinStep::Spawn { retire } => CheckinView::Spawn(*retire),
        }
    }
}

/// Whether a helper works for a goal.
pub open spec fn works_for(active: Option<HelperView>, goal: ThreadGoalView) -> bool {
    active is Some && active->0.goal_revision.goal_id == goal.goal_id
}

/// What is remembered when supervision turns to a goal: everything, if it was
/// about that goal, else only the helper to retire.
pub open spec fn turned_to(state: RuntimeView, goal: ThreadGoalView) -> RuntimeView {
    if state.goal_id == Some(goal.goal_id) {
        state
    } else {
        RuntimeView {
            goal_id: Some(goal.goal_id),
            snooze: None,
            consecutive_failures: 0,
            previous_action: None,
            ..state
        }
    }
}

/// Whether a deferred check-in for this revision of the goal is still ahead.
pub open spec fn is_snoozing(state: RuntimeView, goal: ThreadGoalView, now: Moment) -> bool {
    state.snooze is Some && wake_is_for(state.snooze->0.wake, goal)
        && state.snooze->0.deadline.nanos > now.nanos
}

/// What the next check-in is to be, and the state after it has been decided.
pub open spec fn checkin(
    state: RuntimeView,
    parent_is_sub_agent: bool,
    parent_is_busy: bool,
    helper_is_live: bool,
    goal: ThreadGoalView,
    now: Moment,
) -> (RuntimeView, CheckinView) {
    if parent_is_sub_agent {
        (state, CheckinView::NotRoot)
    } else if parent_is_busy {
        (state, CheckinView::Busy)
    } else if works_for(state.active, goal) && helper_is_live {
        (state, CheckinView::AlreadySupervised)
    } else {
        let retire = match state.active {
            Some(active) => Some(active.thread_id),
            None => None,
        };
        let turned = turned_to(state, goal);
        if is_snoozing(turned, goal, now) {
            let generation = next_generation(turned.wake_generation);
            (
                RuntimeView { wake_generation: generation, ..turned },
                CheckinView::Wait(retire, turned.snooze->0, generation),
            )
        } else {
            (
                RuntimeView {
                    active: None,
                    snooze: None,
                    wake_generation: if turned.snooze is Some {
                        next_generation(turned.wake_generation)
                    } else {
                        turned.wake_generation
                    },
                    ..turned
                },
                CheckinView::Spawn(retire),
            )
        }
    }
}

/// Why a helper may not select an action.
#[derive(Clone, Copy, Debug, PartialEq, Eq, Structural)]
pub enum SelectError {
    NotActive,
    AlreadySelected,
    EditInFlight,
}

impl SelectError {
    /// The sentence that reports this error.
    pub fn message(&self) -> (message: &'static str)
        ensures
            message@ == (match *self {
                SelectError::NotActive => "this supervisor helper is no longer active"@,
                SelectError::AlreadySelected => {
                    "a supervisor action was already selected for this check-in"@
                },
                SelectError::EditInFlight => "the supervisor goal edit is still in progress"@,
            }),
    {
        match self {
            SelectError::NotActive => "this supervisor helper is no longer active",
            SelectError::AlreadySelected => {
                "a supervisor action was already selected for this check-in"
            },
            SelectError::EditInFlight => "the supervisor goal edit is still in progress",
        }
    }
}

/// Why a helper may not edit the goal.
#[derive(Clone, Copy, Debug, PartialEq, Eq, Structural)]
pub enum EditError {
    NotActive,
    DispositionSelected,
    EditInFlight,
    AlreadyEdited,
}

impl EditError {
    /// The sentence that reports this error.
    pub fn message(&self) -> (message: &'static str)
        ensures
            message@ == (match *self {
                EditError::NotActive => "this supervisor helper is no longer active"@,
                EditError::DispositionSelected => "the supervisor disposition was already selected"@,
                EditError::EditInFlight => "a supervisor goal edit is already in progress"@,
                EditError::AlreadyEdited => {
                    "the active goal was already edited during this check-in"@
                },
            }),
    {
        match self {
            EditError::NotActive => "this supervisor helper is no longer active",
            EditError::DispositionSelected => "the supervisor disposition was already selected",
            EditError::EditInFlight => "a supervisor goal edit is already in progress",
            EditError::AlreadyEdited => "the active goal was already edited during this check-in",
        }
    }
}

/// Whether the helper at work is this one.
pub open spec fn is_active(state: RuntimeView, helper_id: ThreadId) -> bool {
    state.active is Some && state.active->0.thread_id == helper_id
}

/// Why a helper may not select an action, if it may not.
pub open spec fn select_error(state: RuntimeView, helper_id: ThreadId) -> Option<SelectError> {
    if !is_active(state, helper_id) {
        Some(SelectError::NotActive)
    } else if state.active->0.action is Some {
        Some(SelectError::AlreadySelected)
    } else if state.active->0.edit_state == GoalEditState::InFlight {
        Some(SelectError::EditInFlight)
    } else {
        None
    }
}

/// Why a helper may not edit the goal, if it may not.
pub open spec fn edit_error(state: RuntimeView, helper_id: ThreadId) -> Option<EditError> {
    if !is_active(state, helper_id) {
        Some(EditError::NotActive)
    } else if state.active->0.action is Some {
        Some(EditError::DispositionSelected)
    } else {
        match state.active->0.edit_state {
            GoalEditState::Available => None,
            GoalEditState::InFlight => Some(EditError::EditInFlight),
            GoalEditState::Committed => Some(EditError::AlreadyEdited),
        }
    }
}

/// The state with another action of the helper at work.
pub open spec fn with_action(state: RuntimeView, action: Option<Action>) -> RuntimeView {
    RuntimeView { active: Some(HelperView { action, ..state.active->0 }), ..state }
}

/// The state with another edit state of the helper at work.
pub open spec fn with_edit(state: RuntimeView, edit_state: GoalEditState) -> RuntimeView {
    RuntimeView { active: Some(HelperView { edit_state, ..state.active->0 }), ..state }
}

/// Whether the helper has an edit in flight.
pub open spec fn is_editing(state: RuntimeView, helper_id: ThreadId) -> bool {
    is_active(state, helper_id) && state.active->0.edit_state == GoalEditState::InFlight
}

/// Whether a scheduled wake is still the one to act on when its deadline has
/// passed.
pub open spec fn is_due(state: RuntimeView, generation: u64, wake: WakeView) -> bool {
    state.wake_generation == generation && state.snooze is Some && state.snooze->0.wake == wake
}

/// How a helper ended.
#[derive(Clone, Copy, Debug, PartialEq, Eq, Structural)]
pub enum HelperEnd {
    /// It was not the helper at work; nothing is done.
    Ignored,
    /// It had decided on an action; it is retired.
    Settled,
    /// It had decided nothing, and its request cannot succeed; it is retired,
    /// and the goal is blocked.
    Blocked,
    /// It had decided nothing; it is retired, and the check-in is retried.
    Failed,
}

/// How a helper ended.
pub open spec fn helper_end(
    state: RuntimeView,
    helper_id: ThreadId,
    has_terminal_failure: bool,
) -> HelperEnd {
    if !is_active(state, helper_id) {
        HelperEnd::Ignored
    } else if state.active->0.action is Some {
        HelperEnd::Settled
    } else if has_terminal_failure {
        HelperEnd::Blocked
    } else {
        HelperEnd::Failed
    }
}

/// Two to the power `exponent`.
pub open spec fn two_to(exponent: nat) -> nat
    decreases exponent,
{
    if exponent == 0 {
        1
    } else {
        2 * two_to((exponent - 1) as nat)
    }
}

/// The state after one more check-in has failed.
pub open spec fn with_failure(state: RuntimeView) -> RuntimeView {
    RuntimeView {
        consecutive_failures: least(state.consecutive_failures + 1, u32::MAX as int) as u32,
        ..state
    }
}

/// The time before a check-in is retried after so many failures in a row, in
/// seconds: it doubles with every failure, up to a limit.
pub open spec fn retry_seconds(consecutive_failures: u32) -> int {
    let exponent = if consecutive_failures == 0 {
        0
    } else {
        least(consecutive_failures - 1, 6)
    };
    least(
        INITIAL_FAILURE_RETRY_SECONDS * two_to(exponent as nat),
        MAX_FAILURE_RETRY_SECONDS as int,
    )
}

/// The time before a check-in is retried after so many failures in a row, in
/// seconds.
pub fn failure_retry_delay(consecutive_failures: u32) -> (delay_seconds: u64)
    ensures
        delay_seconds == retry_seconds(consecutive_failures),
{
    let exponent: u32 = if consecutive_failures == 0 {
        0
    } else if consecutive_failures - 1 < 6 {
        consecutive_failures - 1
    } else {
        6
    };
    let mut factor: u64 = 1;
    let mut i: u32 = 0;
    while i < exponent
        invariant
            i <= exponent <= 6,
            factor == two_to(i as nat),
            factor <= 64,
            i == 0 ==> factor == 1,
            i == 1 ==> factor == 2,
            i == 2 ==> factor == 4,
            i == 3 ==> factor == 8,
            i == 4 ==> factor == 16,
            i == 5 ==> factor == 32,
        decreases exponent - i,
    {
        factor = factor * 2;
        i += 1;
    }
    let delay: u64 = INITIAL_FAILURE_RETRY_SECONDS * factor;
    if delay <= MAX_FAILURE_RETRY_SECONDS {
        delay
    } else {
        MAX_FAILURE_RETRY_SECONDS
    }
}

/// Retries wait at least as long after more failures, and always between the
/// first and the longest time.
pub proof fn retries_back_off(fewer: u32, more: u32)
    requires
        fewer <= more,
    ensures
        INITIAL_FAILURE_RETRY_SECONDS <= retry_seconds(fewer) <= retry_seconds(more)
            <= MAX_FAILURE_RETRY_SECONDS,
{
    reveal_with_fuel(two_to, 8);
}

/// Why a goal could not be snoozed.
pub const CHANGED_BEFORE_SNOOZED: &'static str =
    "the active goal changed before it could be snoozed";

/// Why there is nothing to work on.
pub const GOAL_STATE_UNAVAILABLE: &'static str = "goal state is unavailable";

/// Whether a thread's goal is the one that a helper was started for, and
/// active.
pub open spec fn is_active_goal(goal: Option<ThreadGoalView>, goal_id: Seq<char>) -> bool {
    goal is Some && goal->0.goal_id == goal_id && goal->0.status == ThreadGoalStatus::Active
}

/// The content of an optional goal.
pub open spec fn optional_goal(goal: Option<&ThreadGoal>) -> Option<ThreadGoalView> {
    match goal {
        Some(goal) => Some(goal@),
        None => None,
    }
}

/// Defers the check-in for the thread's present goal, if it is still the one
/// that a helper was started for, and active.
pub fn snooze_for_active_goal(
    goal: Option<&ThreadGoal>,
    goal_id: &str,
    delay_seconds: u64,
    now_ms: i64,
    now: Moment,
) -> (snooze: Result<Snooze, &'static str>)
    requires
        now.nanos + delay_seconds * 1_000_000_000 <= u128::MAX,
    ensures
        (match snooze {
            Ok(snooze) => is_active_goal(optional_goal(goal), goal_id@) && snooze@ == snooze_of(
                goal->0@,
                delay_seconds,
                now_ms,
                now,
            ),
            Err(message) => !is_active_goal(optional_goal(goal), goal_id@) && message@
                == CHANGED_BEFORE_SNOOZED@,
        }),
{
    match goal {
        Some(goal) => if same_text(goal.goal_id.as_str(), goal_id) && goal.status
            == ThreadGoalStatus::Active {
            Ok(Snooze::for_goal(goal, delay_seconds, now_ms, now))
        } else {
            Err(CHANGED_BEFORE_SNOOZED)
        },
        None => Err(CHANGED_BEFORE_SNOOZED),
    }
}

/// The warning that a check-in failed and when it is retried.
pub open spec fn retry_warning_text(error: Seq<char>, delay_seconds: u64) -> Seq<char> {
    "Saffron goal supervisor failed: "@ + error + ". Retrying in "@ + decimal(delay_seconds as nat)
        + "s."@
}

/// Warns that a check-in failed and when it is retried.
pub fn retry_warning(error: &str, delay_seconds: u64) -> (message: String)
    ensures
        message@ == retry_warning_text(error@, delay_seconds),
{
    let mut message: String = "Saffron goal supervisor failed: ".to_string();
    message.append(error);
    message.append(". Retrying in ");
    message.append(decimal_text(delay_seconds).as_str());
    message.append("s.");
    message
}

/// Describes a helper that ended without a decision.
pub fn undecided_description(terminal_status: &str) -> (description: String)
    ensures
        description@ == "helper ended as "@ + terminal_status@
            + " without selecting an action"@,
{
    let mut description: String = "helper ended as ".to_string();
    description.append(terminal_status);
    description.append(" without selecting an action");
    description
}

impl Runtime {
    /// Nothing is supervised.
    pub fn new() -> (runtime: Self)
        ensures
            runtime@ == (RuntimeView {
                goal_id: None,
                active: None,
                snooze: None,
                consecutive_failures: 0,
                previous_action: None,
                wake_generation: 0,
            }),
    {
        Runtime {
            goal_id: None,
            active: None,
            snooze: None,
            consecutive_failures: 0,
            previous_action: None,
            wake_generation: 0,
        }
    }

    /// The helper at work.
    pub fn active_helper(&self) -> (helper_id: Option<ThreadId>)
        ensures
            helper_id == (match self@.active {
                Some(active) => Some(active.thread_id),
                None => None,
            }),
    {
        match &self.active {
            Some(active) => Some(active.thread_id),
            None => None,
        }
    }

    /// The action that was last committed for the goal.
    pub fn previous_action(&self) -> (action: Option<Action>)
        ensures
            action == self@.previous_action,
    {
        self.previous_action
    }

    /// How many check-ins for the goal have failed in a row.
    pub fn consecutive_failures(&self) -> (failures: u32)
        ensures
            failures == self@.consecutive_failures,
    {
        self.consecutive_failures
    }

    /// What the session has to be kept resident for while it is idle.
    pub fn idle_disposition(&self) -> (disposition: IdleDisposition)
        ensures
            disposition == (if self@.active is Some {
                IdleDisposition::ProcessLocalWork
            } else {
                match self@.snooze {
                    None => IdleDisposition::Quiescent,
                    Some(snooze) => match snooze.idle_retention {
                        IdleRetention::Required => IdleDisposition::ProcessLocalWork,
                        IdleRetention::Reconstructible => IdleDisposition::ReconstructibleSnooze,
                    },
                }
            }),
    {
        match &self.active {
            Some(_) => IdleDisposition::ProcessLocalWork,
            None => match &self.snooze {
                None => IdleDisposition::Quiescent,
                Some(snooze) => match snooze.idle_retention {
                    IdleRetention::Required => IdleDisposition::ProcessLocalWork,
                    IdleRetention::Reconstructible => IdleDisposition::ReconstructibleSnooze,
                },
            },
        }
    }

    /// Decides what the next check-in for a goal is to be.
    ///
    /// `helper_is_live` says whether the helper at work, if there is one, is
    /// starting or running.
    pub fn start_checkin(
        &mut self,
        parent_is_sub_agent: bool,
        parent_is_busy: bool,
        helper_is_live: bool,
        goal: &ThreadGoal,
        now: Moment,
    ) -> (step: CheckinStep)
        ensures
            (final(self)@, step@) == checkin(
                old(self)@,
                parent_is_sub_agent,
                parent_is_busy,
                helper_is_live,
                goal@,
                now,
            ),
    {
        if parent_is_sub_agent {
            return CheckinStep::NotRoot;
        }
        if parent_is_busy {
            return CheckinStep::Busy;
        }
        let mut retire: Option<ThreadId> = None;
        if let Some(active) = &self.active {
            if helper_is_live && same_text(active.goal_revision.goal_id(), goal.goal_id.as_str()) {
                return CheckinStep::AlreadySupervised;
            }
            retire = Some(active.thread_id);
        }
        let same_goal: bool = match &self.goal_id {
            Some(goal_id) => same_text(goal_id.as_str(), goal.goal_id.as_str()),
            None => false,
        };
        if !same_goal {
            self.goal_id = Some(goal.goal_id.clone());
            self.snooze = None;
            self.consecutive_failures = 0;
            self.previous_action = None;
        }
        let ghost turned = self@;
        assert(turned == turned_to(old(self)@, goal@));
        let pending: Option<Snooze> = match &self.snooze {
            Some(snooze) => if same_text(snooze.wake.goal_id.as_str(), goal.goal_id.as_str())
                && snooze.wake.goal_updated_at_ms == goal.updated_at_ms && same_text(
                snooze.wake.goal_objective.as_str(),
                goal.objective.as_str(),
            ) && snooze.deadline.nanos > now.nanos {
                Some(snooze.clone())
            } else {
                None
            },
            None => None,
        };
        match pending {
            Some(snooze) => {
                let generation: u64 = self.schedule_wake();
                CheckinStep::Wait { retire, snooze, generation }
            },
            None => {
                self.active = None;
                if self.snooze.is_some() {
                    self.snooze = None;
                    notify_wake_changed(&mut self.wake_generation);
                }
                CheckinStep::Spawn { retire }
            },
        }
    }

    /// Takes note that a helper has been started for a goal.
    pub fn helper_started(&mut self, helper_id: ThreadId, goal: &ThreadGoal)
        ensures
            final(self)@ == (RuntimeView {
                active: Some(
                    HelperView {
                        thread_id: helper_id,
                        goal_revision: revision_of(goal@),
                        edit_state: GoalEditState::Available,
                        action: None,
                    },
                ),
                ..old(self)@
            }),
    {
        self.active = Some(
            ActiveHelper {
                thread_id: helper_id,
                goal_revision: ThreadGoalRevision::capture(goal),
                edit_state: GoalEditState::Available,
                action: None,
            },
        );
    }

    /// Cancels supervision when no active goal remains.  Returns the helper to
    /// retire.
    pub fn stop(&mut self) -> (retire: Option<ThreadId>)
        ensures
            final(self)@ == (RuntimeView {
                goal_id: None,
                active: None,
                snooze: None,
                consecutive_failures: 0,
                previous_action: None,
                wake_generation: next_generation(old(self)@.wake_generation),
            }),
            retire == (match old(self)@.active {
                Some(active) => Some(active.thread_id),
                None => None,
            }),
    {
        let retire: Option<ThreadId> = self.active_helper();
        notify_wake_changed(&mut self.wake_generation);
        self.goal_id = None;
        self.active = None;
        self.snooze = None;
        self.consecutive_failures = 0;
        self.previous_action = None;
        retire
    }

    /// Selects the one action of a helper.  Returns the goal that the helper
    /// was started for.
    pub fn select_action(&mut self, helper_id: ThreadId, action: Action) -> (goal_id: Result<
        String,
        SelectError,
    >)
        ensures
            (match goal_id {
                Ok(goal_id) => {
                    &&& select_error(old(self)@, helper_id) is None
                    &&& goal_id@ == old(self)@.active->0.goal_revision.goal_id
                    &&& final(self)@ == with_action(old(self)@, Some(action))
                },
                Err(error) => select_error(old(self)@, helper_id) == Some(error) && final(self)@
                    == old(self)@,
            }),
    {
        match self.active.take() {
            None => Err(SelectError::NotActive),
            Some(mut active) => {
                let refusal: Option<SelectError> = if active.thread_id != helper_id {
                    Some(SelectError::NotActive)
                } else if active.action.is_some() {
                    Some(SelectError::AlreadySelected)
                } else if active.edit_state == GoalEditState::InFlight {
                    Some(SelectError::EditInFlight)
                } else {
                    None
                };
                match refusal {
                    Some(error) => {
                        self.active = Some(active);
                        Err(error)
                    },
                    None => {
                        let goal_id: String = active.goal_revision.goal_id().to_string();
                        active.action = Some(action);
                        self.active = Some(active);
                        Ok(goal_id)
                    },
                }
            },
        }
    }

    /// Reserves the one optional goal edit allowed before an action.
    pub fn begin_goal_edit(&mut self, helper_id: ThreadId) -> (revision: Result<
        ThreadGoalRevision,
        EditError,
    >)
        ensures
            (match revision {
                Ok(revision) => {
                    &&& edit_error(old(self)@, helper_id) is None
                    &&& revision@ == old(self)@.active->0.goal_revision
                    &&& final(self)@ == with_edit(old(self)@, GoalEditState::InFlight)
                },
                Err(error) => edit_error(old(self)@, helper_id) == Some(error) && final(self)@
                    == old(self)@,
            }),
    {
        match self.active.take() {
            None => Err(EditError::NotActive),
            Some(mut active) => {
                let refusal: Option<EditError> = if active.thread_id != helper_id {
                    Some(EditError::NotActive)
                } else if active.action.is_some() {
                    Some(EditError::DispositionSelected)
                } else {
                    match active.edit_state {
                        GoalEditState::Available => None,
                        GoalEditState::InFlight => Some(EditError::EditInFlight),
                        GoalEditState::Committed => Some(EditError::AlreadyEdited),
                    }
                };
                match refusal {
                    Some(error) => {
                        self.active = Some(active);
                        Err(error)
                    },
                    None => {
                        let revision: ThreadGoalRevision = active.goal_revision.clone();
                        active.edit_state = GoalEditState::InFlight;
                        self.active = Some(active);
                        Ok(revision)
                    },
                }
            },
        }
    }

    /// Ends an edit in flight.
    fn end_goal_edit(&mut self, helper_id: ThreadId, edit_state: GoalEditState)
        ensures
            final(self)@ == if is_editing(old(self)@, helper_id) {
                with_edit(old(self)@, edit_state)
            } else {
                old(self)@
            },
    {
        if let Some(mut active) = self.active.take() {
            if active.thread_id == helper_id && active.edit_state == GoalEditState::InFlight {
                active.edit_state = edit_state;
            }
            self.active = Some(active);
        }
    }

    /// Commits the helper's edit reservation without consuming its action.
    pub fn commit_goal_edit(&mut self, helper_id: ThreadId)
        ensures
            final(self)@ == if is_editing(old(self)@, helper_id) {
                with_edit(old(self)@, GoalEditState::Committed)
            } else {
                old(self)@
            },
    {
        self.end_goal_edit(helper_id, GoalEditState::Committed);
    }

    /// Releases an edit reservation when validation or persistence fails.
    pub fn clear_failed_goal_edit(&mut self, helper_id: ThreadId)
        ensures
            final(self)@ == if is_editing(old(self)@, helper_id) {
                with_edit(old(self)@, GoalEditState::Available)
            } else {
                old(self)@
            },
    {
        self.end_goal_edit(helper_id, GoalEditState::Available);
    }

    /// Takes note that the effect of an action has taken place.
    pub fn commit_action(&mut self, action: Action)
        ensures
            final(self)@ == (RuntimeView {
                previous_action: Some(action),
                consecutive_failures: 0,
                ..old(self)@
            }),
    {
        self.previous_action = Some(action);
        self.consecutive_failures = 0;
    }

    /// Takes a selection back when the effect of the action failed.
    pub fn clear_failed_action(&mut self, helper_id: ThreadId, action: Action)
        ensures
            final(self)@ == if is_active(old(self)@, helper_id) && old(self)@.active->0.action
                == Some(action) {
                with_action(old(self)@, None)
            } else {
                old(self)@
            },
    {
        if let Some(mut active) = self.active.take() {
            if active.thread_id == helper_id {
                if let Some(selected) = active.action {
                    if selected == action {
                        active.action = None;
                    }
                }
            }
            self.active = Some(active);
        }
    }

    /// Remembers a deferred check-in.
    pub fn set_snooze(&mut self, snooze: Snooze)
        ensures
            final(self)@ == (RuntimeView { snooze: Some(snooze@), ..old(self)@ }),
    {
        self.snooze = Some(snooze);
    }

    /// Takes note that a helper has ended.
    pub fn finish_helper(&mut self, helper_id: ThreadId, failure: Option<&TerminalFailure>) -> (end:
        HelperEnd)
        ensures
            end == helper_end(old(self)@, helper_id, failure is Some),
            final(self)@ == if is_active(old(self)@, helper_id) {
                RuntimeView { active: None, ..old(self)@ }
            } else {
                old(self)@
            },
    {
        match self.active.take() {
            None => HelperEnd::Ignored,
            Some(active) => {
                if active.thread_id != helper_id {
                    self.active = Some(active);
                    HelperEnd::Ignored
                } else if active.action.is_some() {
                    HelperEnd::Settled
                } else if failure.is_some() {
                    HelperEnd::Blocked
                } else {
                    HelperEnd::Failed
                }
            },
        }
    }

    /// Counts a failed check-in.  Returns the time before the retry, in
    /// seconds.
    pub fn count_failure(&mut self) -> (delay_seconds: u64)
        ensures
            final(self)@ == with_failure(old(self)@),
            delay_seconds == retry_seconds(final(self)@.consecutive_failures),
    {
        if self.consecutive_failures < u32::MAX {
            self.consecutive_failures = self.consecutive_failures + 1;
        }
        failure_retry_delay(self.consecutive_failures)
    }

    /// Makes any wake that was scheduled before obsolete.  Returns the
    /// generation of the wake that is scheduled now.
    pub fn schedule_wake(&mut self) -> (generation: u64)
        ensures
            generation == next_generation(old(self)@.wake_generation),
            final(self)@ == (RuntimeView { wake_generation: generation, ..old(self)@ }),
    {
        notify_wake_changed(&mut self.wake_generation);
        self.wake_generation
    }

    /// Takes note that the deadline of a scheduled wake has passed.  Returns
    /// whether it is still the one to act on.
    pub fn wake_due(&mut self, generation: u64, wake: &GoalWake) -> (due: bool)
        ensures
            due == is_due(old(self)@, generation, wake@),
            final(self)@ == if due {
                RuntimeView { snooze: None, ..old(self)@ }
            } else {
                old(self)@
            },
    {
        if self.wake_generation != generation {
            return false;
        }
        let due: bool = match &self.snooze {
            Some(snooze) => snooze.wake.same_as(wake),
            None => false,
        };
        if due {
            self.snooze = None;
        }
        due
    }
}

/// A thread that is no root, and a parent that is at work, are left alone.
pub proof fn only_idle_roots_are_supervised(
    state: RuntimeView,
    parent_is_sub_agent: bool,
    parent_is_busy: bool,
    helper_is_live: bool,
    goal: ThreadGoalView,
    now: Moment,
)
    ensures
        parent_is_sub_agent || parent_is_busy ==> checkin(
            state,
            parent_is_sub_agent,
            parent_is_busy,
            helper_is_live,
            goal,
            now,
        ).0 == state,
        checkin(
            state,
            parent_is_sub_agent,
            parent_is_busy,
            helper_is_live,
            goal,
            now,
        ).1 is Spawn ==> !parent_is_sub_agent && !parent_is_busy,
{
}

/// A goal has one helper at a time: while one is at work for it, no other is
/// started and nothing changes; and one that is started replaces any other,
/// which is retired.
pub proof fn one_helper_at_a_time(
    state: RuntimeView,
    helper_is_live: bool,
    goal: ThreadGoalView,
    now: Moment,
)
    ensures
        works_for(state.active, goal) && helper_is_live ==> checkin(
            state,
            false,
            false,
            helper_is_live,
            goal,
            now,
        ) == (state, CheckinView::AlreadySupervised),
        ({
            let (after, step) = checkin(state, false, false, helper_is_live, goal, now);
            step matches CheckinView::Spawn(retire) ==> after.active is None && (
            state.active is Some ==> retire == Some(state.active->0.thread_id))
        }),
{
}

/// A deferred check-in for the present revision of the goal is waited for, not
/// repeated.  A goal that was edited or replaced in the meantime is checked on
/// at once.
pub proof fn only_the_present_revision_is_waited_for(
    state: RuntimeView,
    helper_is_live: bool,
    goal: ThreadGoalView,
    now: Moment,
)
    requires
        !(works_for(state.active, goal) && helper_is_live),
        state.goal_id == Some(goal.goal_id),
    ensures
        ({
            let (after, step) = checkin(state, false, false, helper_is_live, goal, now);
            &&& is_snoozing(state, goal, now) ==> step is Wait && after.snooze == state.snooze
            &&& !is_snoozing(state, goal, now) ==> step is Spawn && after.snooze is None
        }),
{
}

/// Supervision of another goal starts without a past.
pub proof fn another_goal_has_no_past(
    state: RuntimeView,
    helper_is_live: bool,
    goal: ThreadGoalView,
    now: Moment,
)
    requires
        !works_for(state.active, goal),
        state.goal_id != Some(goal.goal_id),
    ensures
        ({
            let (after, step) = checkin(state, false, false, helper_is_live, goal, now);
            &&& step is Spawn
            &&& after.goal_id == Some(goal.goal_id)
            &&& after.snooze is None
            &&& after.consecutive_failures == 0
            &&& after.previous_action is None
        }),
{
}

/// Once the wake of a snooze is stored, the goal is due for recovery at the
/// very time at which the snooze ends.
pub proof fn stored_snooze_is_the_deadline(
    goal: ThreadGoalView,
    delay_seconds: u64,
    now_ms: i64,
    now: Moment,
    wakes: Map<u128, WakeView>,
)
    ensures
        ({
            let wake = snooze_of(goal, delay_seconds, now_ms, now).wake;
            &&& wake_is_for(wake, goal)
            &&& schedule_of(goal, wakes.insert(goal.thread_id.value, wake)).wake_at_millis == Some(
                wake.wake_at_ms,
            )
        }),
{
    stored_wake_is_the_deadline(goal, wakes, snooze_of(goal, delay_seconds, now_ms, now).wake);
}

/// Scheduling a wake makes the one before obsolete; and a wake is acted on
/// once.
pub proof fn obsolete_wakes_do_nothing(state: RuntimeView, wake: WakeView, later: WakeView)
    ensures
        ({
            let rescheduled = RuntimeView {
                wake_generation: next_generation(state.wake_generation),
                ..state
            };
            let acted_on = RuntimeView { snooze: None, ..state };
            &&& !is_due(rescheduled, state.wake_generation, wake)
            &&& !is_due(acted_on, state.wake_generation, later)
        }),
{
}

/// A helper selects one action per check-in: once one is selected, neither
/// another action nor an edit is possible.
pub proof fn one_action_per_checkin(state: RuntimeView, helper_id: ThreadId, action: Action)
    requires
        select_error(state, helper_id) is None,
    ensures
        select_error(with_action(state, Some(action)), helper_id) == Some(
            SelectError::AlreadySelected,
        ),
        edit_error(with_action(state, Some(action)), helper_id) == Some(
            EditError::DispositionSelected,
        ),
        select_error(with_action(with_action(state, Some(action)), None), helper_id) is None,
{
}

/// A helper edits the goal at most once per check-in, and its action is still
/// to be selected afterwards.
pub proof fn one_edit_per_checkin(state: RuntimeView, helper_id: ThreadId)
    requires
        edit_error(state, helper_id) is None,
    ensures
        ({
            let editing = with_edit(state, GoalEditState::InFlight);
            let edited = with_edit(editing, GoalEditState::Committed);
            &&& edit_error(editing, helper_id) == Some(EditError::EditInFlight)
            &&& select_error(editing, helper_id) == Some(SelectError::EditInFlight)
            &&& edit_error(edited, helper_id) == Some(EditError::AlreadyEdited)
            &&& select_error(edited, helper_id) is None
            &&& edit_error(with_edit(editing, GoalEditState::Available), helper_id) is None
        }),
{
}

/// A helper that has been replaced or retired decides nothing any more.
pub proof fn retired_helpers_decide_nothing(state: RuntimeView, helper_id: ThreadId)
    requires
        !is_active(state, helper_id),
    ensures
        select_error(state, helper_id) == Some(SelectError::NotActive),
        edit_error(state, helper_id) == Some(EditError::NotActive),
        helper_end(state, helper_id, true) == HelperEnd::Ignored,
        helper_end(state, helper_id, false) == HelperEnd::Ignored,
{
}

} // verus!
