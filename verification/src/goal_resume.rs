//! Root-only resumption of a durable goal.
use vstd::prelude::*;

use crate::goal_store::goal_of;
use crate::goal_store::is_resumable;
use crate::goal_store::is_stopped;
use crate::goal_store::reactivated;
use crate::goal_store::with_goal;
use crate::goal_store::GoalStore;
use crate::goal_supervisor::failure::SupervisorEvent;
use crate::goal_supervisor::tools::NAMESPACE_DESCRIPTION;
use crate::goals::protocol_goal;
use crate::goals::shows;
use crate::goals::ThreadGoal;
use crate::goals::ThreadGoalStatus;
use crate::goals::ThreadGoalView;
use crate::ids::ThreadId;
use crate::registry::RegisteredTool;
use crate::registry::ToolRegistry;
use crate::tool_spec::property_views;
use crate::tool_spec::ObjectSchema;
use crate::tool_spec::PropertyView;
use crate::tool_spec::SchemaView;
use crate::tool_spec::ToolSpec;
use crate::tool_spec::ToolSpecView;
use crate::tool_spec::NAMESPACE;

verus! {

/// The name of the tool.
pub const RESUME_TOOL_NAME: &'static str = "resume_goal";

/// What a model is told of the tool.
pub const RESUME_TOOL_DESCRIPTION: &'static str =
    "Resume this thread's paused, blocked, or usage-limited durable goal only when the user or system explicitly requested resumption. The goal keeps its identity, objective, budget, and accumulated usage. Never revoke a stopped state on your own.";

/// Context needed to attribute a completed goal resumption.
#[derive(Debug)]
pub struct GoalResumeRequest {
    /// Identifier used for the resulting goal-updated event.
    pub event_id: String,
    /// Turn to which the goal-updated event belongs, when one is active.
    pub turn_id: Option<String>,
}

/// Stable failures of a goal resumption.
#[derive(Debug)]
pub enum GoalResumeError {
    GoalNotFound,
    AlreadyActive,
    TokenBudgetExhausted,
    Completed,
    Changed,
    Internal(String),
}

/// The sentence that reports an error.
pub open spec fn resume_refusal(error: GoalResumeError) -> Seq<char> {
    match error {
        GoalResumeError::GoalNotFound => "there is no durable goal to resume"@,
        GoalResumeError::AlreadyActive => "the durable goal is already active"@,
        GoalResumeError::TokenBudgetExhausted => {
            "the durable goal cannot resume because its token budget is exhausted"@
        },
        GoalResumeError::Completed => {
            "the completed durable goal cannot be resumed; create a new goal instead"@
        },
        GoalResumeError::Changed => "the durable goal changed before it could be resumed"@,
        GoalResumeError::Internal(error) => "failed to resume the durable goal: "@ + error@,
    }
}

impl GoalResumeError {
    /// The sentence that reports this error.
    pub fn message(&self) -> (message: String)
        ensures
            message@ == resume_refusal(*self),
    {
        match self {
            GoalResumeError::GoalNotFound => "there is no durable goal to resume".to_string(),
            GoalResumeError::AlreadyActive => "the durable goal is already active".to_string(),
            GoalResumeError::TokenBudgetExhausted => {
                "the durable goal cannot resume because its token budget is exhausted".to_string()
            },
            GoalResumeError::Completed => {
                "the completed durable goal cannot be resumed; create a new goal instead".to_string()
            },
            GoalResumeError::Changed => {
                "the durable goal changed before it could be resumed".to_string()
            },
            GoalResumeError::Internal(error) => {
                let mut message: String = "failed to resume the durable goal: ".to_string();
                message.append(error.as_str());
                message
            },
        }
    }
}

/// Checks that the status of a thread's goal can be revoked.
pub fn check_stopped(current: Option<&ThreadGoal>) -> (checked: Result<(), GoalResumeError>)
    ensures
        (match checked {
            Ok(_) => current is Some && is_stopped(current->0.status),
            Err(GoalResumeError::GoalNotFound) => current is None,
            Err(GoalResumeError::AlreadyActive) => current is Some && current->0.status
                == ThreadGoalStatus::Active,
            Err(GoalResumeError::TokenBudgetExhausted) => current is Some && current->0.status
                == ThreadGoalStatus::BudgetLimited,
            Err(GoalResumeError::Completed) => current is Some && current->0.status
                == ThreadGoalStatus::Complete,
            Err(_) => false,
        }),
{
    match current {
        None => Err(GoalResumeError::GoalNotFound),
        Some(goal) => match goal.status {
            ThreadGoalStatus::Paused => Ok(()),
            ThreadGoalStatus::Blocked => Ok(()),
            ThreadGoalStatus::UsageLimited => Ok(()),
            ThreadGoalStatus::Active => Err(GoalResumeError::AlreadyActive),
            ThreadGoalStatus::BudgetLimited => Err(GoalResumeError::TokenBudgetExhausted),
            ThreadGoalStatus::Complete => Err(GoalResumeError::Completed),
        },
    }
}

/// Whether a goal can be made newer.
pub open spec fn can_be_revised(goal: Option<ThreadGoalView>) -> bool {
    goal is Some ==> goal->0.updated_at_ms < i64::MAX
}

/// Resumes the goal of a thread at `now_ms`.
pub fn resume_goal(goals: &mut GoalStore, thread_id: ThreadId, now_ms: i64) -> (resumed: Result<
    ThreadGoal,
    GoalResumeError,
>)
    requires
        can_be_revised(goal_of(old(goals)@, thread_id)),
    ensures
        ({
            let current = goal_of(old(goals)@, thread_id);
            match resumed {
                Ok(resumed) => {
                    &&& current is Some
                    &&& is_resumable(current->0)
                    &&& resumed@ == reactivated(current->0, now_ms)
                    &&& final(goals)@ == with_goal(old(goals)@, resumed@)
                },
                Err(error) => {
                    &&& final(goals)@ == old(goals)@
                    &&& match error {
                        GoalResumeError::GoalNotFound => current is None,
                        GoalResumeError::AlreadyActive => current is Some && current->0.status
                            == ThreadGoalStatus::Active,
                        GoalResumeError::TokenBudgetExhausted => current is Some
                            && current->0.status == ThreadGoalStatus::BudgetLimited,
                        GoalResumeError::Completed => current is Some && current->0.status
                            == ThreadGoalStatus::Complete,
                        GoalResumeError::Changed => current is Some && is_stopped(
                            current->0.status,
                        ) && !is_resumable(current->0),
                        GoalResumeError::Internal(_) => false,
                    }
                },
            }
        }),
{
    let current: ThreadGoal = {
        let found: Option<&ThreadGoal> = goals.get_thread_goal(thread_id);
        match check_stopped(found) {
            Err(error) => {
                return Err(error);
            },
            Ok(_) => {},
        }
        match found {
            None => {
                return Err(GoalResumeError::GoalNotFound);
            },
            Some(goal) => goal.clone(),
        }
    };
    match goals.resume_thread_goal_at(&current, now_ms) {
        Some(resumed) => Ok(resumed),
        None => Err(GoalResumeError::Changed),
    }
}

/// Why a caller may not resume a goal.
pub const ROOT_ONLY: &'static str = "only a root thread may resume its durable goal";

/// The sentence that refuses a call that is no function call.
pub const UNSUPPORTED_PAYLOAD: &'static str = "goal resumption received an unsupported payload";

/// Makes the request of a caller to resume its goal.
pub fn resume_request(is_non_root_agent: bool, call_id: &str, turn_id: &str) -> (request: Result<
    GoalResumeRequest,
    &'static str,
>)
    ensures
        (match request {
            Ok(request) => {
                &&& !is_non_root_agent
                &&& request.event_id@ == "saffron-resume-goal-"@ + call_id@
                &&& request.turn_id is Some
                &&& request.turn_id->0@ == turn_id@
            },
            Err(message) => is_non_root_agent && message@ == ROOT_ONLY@,
        }),
{
    if is_non_root_agent {
        return Err(ROOT_ONLY);
    }
    let mut event_id: String = "saffron-resume-goal-".to_string();
    event_id.append(call_id);
    Ok(GoalResumeRequest { event_id, turn_id: Some(turn_id.to_string()) })
}

/// What clients are told once the goal of `thread_id` has been resumed: the
/// resumed goal, under the event and as part of the turn that the request
/// names.
pub fn resumed_goal_event(request: GoalResumeRequest, thread_id: ThreadId, goal: &ThreadGoal) -> (
    event: SupervisorEvent)
    ensures
        event is GoalUpdated,
        event->GoalUpdated_id@ == request.event_id@,
        event->thread_id == thread_id,
        event->turn_id == request.turn_id,
        shows(event->goal, goal@),
{
    SupervisorEvent::GoalUpdated {
        id: request.event_id,
        thread_id,
        turn_id: request.turn_id,
        goal: protocol_goal(goal),
    }
}

/// Registers resumption only for root threads with a usable goal runtime.
pub fn register_root_if_available(
    goals_enabled: bool,
    has_goal_state: bool,
    is_non_root_agent: bool,
    has_capability: bool,
    registry: &mut ToolRegistry,
)
    ensures
        final(registry)@ == if goals_enabled && has_goal_state && !is_non_root_agent
            && has_capability {
            old(registry)@.push(RegisteredTool::ResumeGoal)
        } else {
            old(registry)@
        },
{
    if goals_enabled && has_goal_state && !is_non_root_agent && has_capability {
        registry.add(RegisteredTool::ResumeGoal);
    }
}

/// What a model is told of the tool.
pub open spec fn resume_spec() -> ToolSpecView {
    ToolSpecView {
        namespace: NAMESPACE@,
        namespace_description: NAMESPACE_DESCRIPTION@,
        name: RESUME_TOOL_NAME@,
        description: RESUME_TOOL_DESCRIPTION@,
        parameters: SchemaView { description: None, properties: Seq::empty(), required: None },
        output: None,
    }
}

/// Tells a model of the tool.
pub fn resume_tool_spec() -> (spec: ToolSpec)
    ensures
        spec@ == resume_spec(),
{
    let parameters = ObjectSchema { description: None, properties: Vec::new(), required: None };
    proof {
        assert(property_views(parameters.properties@) =~= Seq::<PropertyView>::empty());
    }
    ToolSpec {
        namespace: NAMESPACE.to_string(),
        namespace_description: NAMESPACE_DESCRIPTION.to_string(),
        name: RESUME_TOOL_NAME.to_string(),
        description: RESUME_TOOL_DESCRIPTION.to_string(),
        parameters,
        output: None,
    }
}

/// Each refusal to resume a goal says why, and a failure of the store is told
/// with its error.
pub proof fn refusals_to_resume_say_why(error: String)
    ensures
        resume_refusal(GoalResumeError::GoalNotFound) == "there is no durable goal to resume"@,
        resume_refusal(GoalResumeError::AlreadyActive) == "the durable goal is already active"@,
        resume_refusal(GoalResumeError::TokenBudgetExhausted)
            == "the durable goal cannot resume because its token budget is exhausted"@,
        resume_refusal(GoalResumeError::Completed)
            == "the completed durable goal cannot be resumed; create a new goal instead"@,
        resume_refusal(GoalResumeError::Changed)
            == "the durable goal changed before it could be resumed"@,
        error@.is_suffix_of(resume_refusal(GoalResumeError::Internal(error))),
{
    let whole = resume_refusal(GoalResumeError::Internal(error));
    assert(whole.subrange(whole.len() - error@.len(), whole.len() as int) =~= error@);
}

} // verus!
