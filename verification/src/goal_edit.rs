//! Model-facing edits to the objective of an active durable goal.
//!
//! The tool derives its target from the caller's authorized session identity;
//! callers cannot supply thread or goal IDs.  Root calls capture the current
//! goal when the tool executes.  Supervisor calls use the revision captured
//! before the helper was spawned, so a later user edit, status change, or goal
//! replacement takes precedence over the helper's stale decision.
use vstd::prelude::*;

use crate::goal_supervisor::failure::SupervisorEvent;
use crate::goal_supervisor::runtime::edit_error;
use crate::goal_supervisor::runtime::is_editing;
use crate::goal_supervisor::runtime::with_edit;
use crate::goal_supervisor::runtime::EditError;
use crate::goal_supervisor::runtime::GoalEditState;
use crate::goal_supervisor::runtime::Runtime;
use crate::goal_supervisor::runtime::RuntimeView;
use crate::goal_supervisor::runtime::GOAL_STATE_UNAVAILABLE;
use crate::goal_supervisor::tools::NAMESPACE_DESCRIPTION;
use crate::goals::protocol_goal;
use crate::goals::revision_of;
use crate::goals::shows;
use crate::goals::ThreadGoal;
use crate::goals::ThreadGoalRevision;
use crate::goals::ThreadGoalStatus;
use crate::ids::ThreadId;
use crate::registry::RegisteredTool;
use crate::registry::ToolRegistry;
use crate::sources::SessionSource;
use crate::text::texts;
use crate::tool_spec::property_of;
use crate::tool_spec::property_views;
use crate::tool_spec::text_property;
use crate::tool_spec::KindView;
use crate::tool_spec::ObjectSchema;
use crate::tool_spec::Property;
use crate::tool_spec::SchemaView;
use crate::tool_spec::ToolSpec;
use crate::tool_spec::ToolSpecView;
use crate::tool_spec::NAMESPACE;

verus! {

/// The name of the tool.
pub const EDIT_TOOL_NAME: &'static str = "edit_active_goal";

/// What a model is told of the tool.
pub const EDIT_TOOL_DESCRIPTION: &'static str =
    "Replace only the objective of the active durable goal for this thread. The edit preserves goal identity, status, budget, and accumulated usage, and fails if the selected goal changed before the edit commits. Use it only when the objective no longer accurately states the user-authorized outcome; preserve explicit requirements and do not use the objective as a progress log.";

/// What a model is told of the objective.
pub const OBJECTIVE_DESCRIPTION: &'static str =
    "Complete replacement objective. Preserve every still-applicable user requirement and do not broaden the authorized scope.";

/// In whose name a goal is edited.
#[derive(Clone, Copy, Debug, PartialEq, Eq, Structural)]
pub enum Authority {
    Root,
    Supervisor,
}

/// What a model is told of the tool.
pub open spec fn edit_spec() -> ToolSpecView {
    ToolSpecView {
        namespace: NAMESPACE@,
        namespace_description: NAMESPACE_DESCRIPTION@,
        name: EDIT_TOOL_NAME@,
        description: EDIT_TOOL_DESCRIPTION@,
        parameters: SchemaView {
            description: None,
            properties: seq![property_of("objective", KindView::Text, OBJECTIVE_DESCRIPTION@)],
            required: Some(seq!["objective"@]),
        },
        output: None,
    }
}

/// Tells a model of the tool.
pub fn edit_tool_spec() -> (spec: ToolSpec)
    ensures
        spec@ == edit_spec(),
{
    let mut properties: Vec<Property> = Vec::new();
    properties.push(text_property("objective", OBJECTIVE_DESCRIPTION));
    let mut required: Vec<String> = Vec::new();
    required.push("objective".to_string());
    proof {
        assert(property_views(properties@) =~= edit_spec().parameters.properties);
        assert(texts(required@) =~= edit_spec().parameters.required->0);
    }
    ToolSpec {
        namespace: NAMESPACE.to_string(),
        namespace_description: NAMESPACE_DESCRIPTION.to_string(),
        name: EDIT_TOOL_NAME.to_string(),
        description: EDIT_TOOL_DESCRIPTION.to_string(),
        parameters: ObjectSchema { description: None, properties, required: Some(required) },
        output: None,
    }
}

/// Whether a root may edit its goal in a step.
pub open spec fn offers_root_edit(
    source: SessionSource,
    goals_enabled: bool,
    has_goal_state: bool,
) -> bool {
    goals_enabled && has_goal_state && !(source is SubAgent)
}

/// Registers root editing only where the built-in goal lifecycle is usable.
pub fn register_root_if_available(
    source: &SessionSource,
    goals_enabled: bool,
    has_goal_state: bool,
    registry: &mut ToolRegistry,
)
    ensures
        final(registry)@ == if offers_root_edit(*source, goals_enabled, has_goal_state) {
            old(registry)@.push(RegisteredTool::EditGoal(Authority::Root))
        } else {
            old(registry)@
        },
{
    if goals_enabled && has_goal_state && !source.is_sub_agent() {
        registry.add(RegisteredTool::EditGoal(Authority::Root));
    }
}

/// Registers editing for a helper already authorized as a supervisor.
pub fn register_supervisor(registry: &mut ToolRegistry)
    ensures
        final(registry)@ == old(registry)@.push(RegisteredTool::EditGoal(Authority::Supervisor)),
{
    registry.add(RegisteredTool::EditGoal(Authority::Supervisor));
}

/// Why a goal was not edited.
#[derive(Debug)]
pub enum EditGoalError {
    /// The call is no function call.
    UnsupportedPayload,
    /// The caller is no root thread.
    NotRoot,
    /// There is no goal state.
    StateUnavailable,
    /// The goal could not be read.
    ReadFailed { error: String },
    /// The thread has no active goal.
    NoActiveGoal,
    /// The helper may not edit the goal.
    Refused { error: EditError },
    /// The goal is not the one that was captured.
    Changed,
    /// The edit could not be stored.
    Failed { error: String },
}

/// The sentence that reports an error.
pub open spec fn edit_refusal(error: EditGoalError) -> Seq<char> {
    match error {
        EditGoalError::UnsupportedPayload => "goal edit received an unsupported payload"@,
        EditGoalError::NotRoot => "only a root thread may edit its active goal"@,
        EditGoalError::StateUnavailable => GOAL_STATE_UNAVAILABLE@,
        EditGoalError::ReadFailed { error } => "failed to read the active goal: "@ + error@,
        EditGoalError::NoActiveGoal => "there is no active goal to edit"@,
        EditGoalError::Refused { error } => match error {
            EditError::NotActive => "this supervisor helper is no longer active"@,
            EditError::DispositionSelected => "the supervisor disposition was already selected"@,
            EditError::EditInFlight => "a supervisor goal edit is already in progress"@,
            EditError::AlreadyEdited => "the active goal was already edited during this check-in"@,
        },
        EditGoalError::Changed => {
            "the active goal changed before its objective could be edited"@
        },
        EditGoalError::Failed { error } => "failed to edit the active goal: "@ + error@,
    }
}

impl EditGoalError {
    /// The sentence that reports this error.
    pub fn message(&self) -> (message: String)
        ensures
            message@ == edit_refusal(*self),
    {
        match self {
            EditGoalError::UnsupportedPayload => {
                "goal edit received an unsupported payload".to_string()
            },
            EditGoalError::NotRoot => "only a root thread may edit its active goal".to_string(),
            EditGoalError::StateUnavailable => GOAL_STATE_UNAVAILABLE.to_string(),
            EditGoalError::ReadFailed { error } => {
                let mut message: String = "failed to read the active goal: ".to_string();
                message.append(error.as_str());
                message
            },
            EditGoalError::NoActiveGoal => "there is no active goal to edit".to_string(),
            EditGoalError::Refused { error } => error.message().to_string(),
            EditGoalError::Changed => {
                "the active goal changed before its objective could be edited".to_string()
            },
            EditGoalError::Failed { error } => {
                let mut message: String = "failed to edit the active goal: ".to_string();
                message.append(error.as_str());
                message
            },
        }
    }
}

/// What was read of the goal of a thread.
#[derive(Debug)]
pub enum GoalReading {
    /// There is no goal state.
    Unavailable,
    /// The goal could not be read.
    Failed { error: String },
    /// The goal of the thread, if it has one.
    Read { goal: Option<ThreadGoal> },
}

/// The revision against which a root edits its goal: that of its goal now, if
/// it is active.
pub fn root_edit_target(source: &SessionSource, reading: &GoalReading) -> (revision: Result<
    ThreadGoalRevision,
    EditGoalError,
>)
    ensures
        (match revision {
            Ok(revision) => {
                &&& !(source is SubAgent)
                &&& reading matches GoalReading::Read { goal }
                &&& goal is Some
                &&& goal->0.status == ThreadGoalStatus::Active
                &&& revision@ == revision_of(goal->0@)
            },
            Err(EditGoalError::NotRoot) => source is SubAgent,
            Err(EditGoalError::StateUnavailable) => !(source is SubAgent)
                && reading is Unavailable,
            Err(EditGoalError::ReadFailed { error }) => !(source is SubAgent) && reading is Failed
                && error@ == reading->error@,
            Err(EditGoalError::NoActiveGoal) => !(source is SubAgent) && reading is Read && !(
            reading->goal is Some && reading->goal->0.status == ThreadGoalStatus::Active),
            Err(_) => false,
        }),
{
    if source.is_sub_agent() {
        return Err(EditGoalError::NotRoot);
    }
    match reading {
        GoalReading::Unavailable => Err(EditGoalError::StateUnavailable),
        GoalReading::Failed { error } => Err(EditGoalError::ReadFailed { error: error.clone() }),
        GoalReading::Read { goal } => match goal {
            Some(goal) => if goal.status == ThreadGoalStatus::Active {
                Ok(ThreadGoalRevision::capture(goal))
            } else {
                Err(EditGoalError::NoActiveGoal)
            },
            None => Err(EditGoalError::NoActiveGoal),
        },
    }
}

/// The revision against which a helper edits the goal of its parent: that
/// which was captured when the helper was started.
pub fn supervisor_edit_target(runtime: &mut Runtime, helper_id: ThreadId) -> (revision: Result<
    ThreadGoalRevision,
    EditGoalError,
>)
    ensures
        (match revision {
            Ok(revision) => {
                &&& edit_error(old(runtime)@, helper_id) is None
                &&& revision@ == old(runtime)@.active->0.goal_revision
                &&& final(runtime)@ == with_edit(old(runtime)@, GoalEditState::InFlight)
            },
            Err(EditGoalError::Refused { error }) => edit_error(old(runtime)@, helper_id) == Some(
                error,
            ) && final(runtime)@ == old(runtime)@,
            Err(_) => false,
        }),
{
    match runtime.begin_goal_edit(helper_id) {
        Ok(revision) => Ok(revision),
        Err(error) => Err(EditGoalError::Refused { error }),
    }
}

/// What came of the conditional update of a goal.
#[derive(Debug)]
pub enum UpdateOutcome {
    /// There is no goal state.
    Unavailable,
    /// The goal is not the one that was captured.
    Stale,
    /// The update could not be stored.
    Failed { error: String },
    /// The goal has been updated.
    Updated { goal: ThreadGoal },
}

/// The supervision of the edited thread once an edit has succeeded or failed.
pub open spec fn after_edit(
    state: RuntimeView,
    authority: Authority,
    helper_id: ThreadId,
    succeeded: bool,
) -> RuntimeView {
    if authority == Authority::Supervisor && is_editing(state, helper_id) {
        with_edit(
            state,
            if succeeded {
                GoalEditState::Committed
            } else {
                GoalEditState::Available
            },
        )
    } else {
        state
    }
}

/// Concludes an edit.  Returns what clients are told.
///
/// A root's edit is told as part of its turn; a helper's is not.
pub fn conclude_edit(
    authority: Authority,
    runtime: &mut Runtime,
    helper_id: ThreadId,
    outcome: UpdateOutcome,
    call_id: &str,
    thread_id: ThreadId,
    turn_id: &str,
) -> (event: Result<SupervisorEvent, EditGoalError>)
    ensures
        final(runtime)@ == after_edit(old(runtime)@, authority, helper_id, outcome is Updated),
        (match event {
            Ok(event) => {
                &&& outcome is Updated
                &&& event is GoalUpdated
                &&& event->GoalUpdated_id@ == "saffron-edit-goal-"@ + call_id@
                &&& event->thread_id == thread_id
                &&& match event->turn_id {
                    Some(turn) => authority == Authority::Root && turn@ == turn_id@,
                    None => authority == Authority::Supervisor,
                }
                &&& shows(event->goal, outcome->Updated_goal@)
            },
            Err(EditGoalError::StateUnavailable) => outcome is Unavailable,
            Err(EditGoalError::Changed) => outcome is Stale,
            Err(EditGoalError::Failed { error }) => outcome is Failed && error@
                == outcome->error@,
            Err(_) => false,
        }),
{
    let failure: EditGoalError = match outcome {
        UpdateOutcome::Updated { goal } => {
            let mut id: String = "saffron-edit-goal-".to_string();
            id.append(call_id);
            let turn: Option<String> = match authority {
                Authority::Root => Some(turn_id.to_string()),
                Authority::Supervisor => None,
            };
            if authority == Authority::Supervisor {
                runtime.commit_goal_edit(helper_id);
            }
            return Ok(
                SupervisorEvent::GoalUpdated {
                    id,
                    thread_id,
                    turn_id: turn,
                    goal: protocol_goal(&goal),
                },
            );
        },
        UpdateOutcome::Unavailable => EditGoalError::StateUnavailable,
        UpdateOutcome::Stale => EditGoalError::Changed,
        UpdateOutcome::Failed { error } => EditGoalError::Failed { error },
    };
    if authority == Authority::Supervisor {
        runtime.clear_failed_goal_edit(helper_id);
    }
    Err(failure)
}

/// An edit that failed leaves the helper free to try again, and one that
/// succeeded does not; a root's edit has no part in it.
pub proof fn failed_edits_can_be_repeated(state: RuntimeView, helper_id: ThreadId)
    requires
        edit_error(state, helper_id) is None,
    ensures
        ({
            let editing = with_edit(state, GoalEditState::InFlight);
            &&& after_edit(editing, Authority::Supervisor, helper_id, false) == state
            &&& edit_error(
                after_edit(editing, Authority::Supervisor, helper_id, true),
                helper_id,
            ) == Some(EditError::AlreadyEdited)
            &&& after_edit(state, Authority::Root, helper_id, true) == state
            &&& after_edit(state, Authority::Root, helper_id, false) == state
        }),
{
}

/// An edit by a helper that has one in flight ends it: for good if it
/// succeeded, and else as if it had not begun.  Nothing else of the supervision
/// changes, and an edit by a root, or by another helper, changes nothing.
pub proof fn edit_in_flight_is_ended(
    state: RuntimeView,
    authority: Authority,
    helper_id: ThreadId,
    succeeded: bool,
)
    ensures
        ({
            let after = after_edit(state, authority, helper_id, succeeded);
            let ends = authority == Authority::Supervisor && state.active is Some
                && state.active->0.thread_id == helper_id && state.active->0.edit_state
                == GoalEditState::InFlight;
            &&& !ends ==> after == state
            &&& ends ==> {
                &&& after.active is Some
                &&& succeeded ==> after.active->0.edit_state == GoalEditState::Committed
                &&& !succeeded ==> after.active->0.edit_state == GoalEditState::Available
                &&& after.active->0.thread_id == helper_id
                &&& after.active->0.goal_revision == state.active->0.goal_revision
                &&& after.active->0.action == state.active->0.action
            }
            &&& after.goal_id == state.goal_id
            &&& after.snooze == state.snooze
            &&& after.consecutive_failures == state.consecutive_failures
            &&& after.previous_action == state.previous_action
            &&& after.wake_generation == state.wake_generation
        }),
{
}

/// Each refusal to edit a goal says why, and a failure of the store is told
/// with its error.
pub proof fn refusals_to_edit_say_why(error: String)
    ensures
        edit_refusal(EditGoalError::UnsupportedPayload)
            == "goal edit received an unsupported payload"@,
        edit_refusal(EditGoalError::NotRoot) == "only a root thread may edit its active goal"@,
        edit_refusal(EditGoalError::StateUnavailable) == "goal state is unavailable"@,
        edit_refusal(EditGoalError::NoActiveGoal) == "there is no active goal to edit"@,
        edit_refusal(EditGoalError::Changed)
            == "the active goal changed before its objective could be edited"@,
        edit_refusal(EditGoalError::ReadFailed { error }) == "failed to read the active goal: "@
            + error@,
        edit_refusal(EditGoalError::Failed { error }) == "failed to edit the active goal: "@
            + error@,
{
}

} // verus!
