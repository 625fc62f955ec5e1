//! Structural failure handling for hidden goal-supervisor helpers.
//!
//! A helper's terminal error is reduced to a rendered status message before
//! the supervisor retires the helper.  The category of the error is kept with
//! the helper, so that retirement can distinguish a request that cannot
//! succeed from failures that should enter the retry loop.
use vstd::prelude::*;

use super::identity::has_helper_role;
use super::identity::is_helper_source;
use crate::goals::protocol_goal;
use crate::goals::shows;
use crate::goals::ProtocolGoal;
use crate::goals::ThreadGoal;
use crate::ids::thread_id_text;
use crate::ids::ThreadId;
use crate::sources::SessionSource;

verus! {

/// What is known of an error that ended a turn.
#[derive(Debug)]
pub enum TurnError {
    /// The request was invalid, and would be invalid again.
    InvalidRequest { message: String },
    /// Anything else.
    Other,
}

/// A helper failure whose category affects supervision policy.
#[derive(Debug)]
pub enum TerminalFailure {
    InvalidRequest { message: String },
}

impl TerminalFailure {
    /// What the failure says.
    pub fn message(&self) -> (message: &str)
        ensures
            message@ == self->message@,
    {
        match self {
            TerminalFailure::InvalidRequest { message } => message.as_str(),
        }
    }
}

/// What is kept with a session about its failure.
#[derive(Debug)]
pub struct FailureRecord {
    failure: Option<TerminalFailure>,
}

impl View for FailureRecord {
    type V = Option<Seq<char>>;

    closed spec fn view(&self) -> Option<Seq<char>> {
        match self.failure {
            Some(failure) => Some(failure->message@),
            None => None,
        }
    }
}

impl FailureRecord {
    /// Nothing has failed.
    pub fn new() -> (record: Self)
        ensures
            record@ is None,
    {
        FailureRecord { failure: None }
    }

    /// Retains terminal error structure until the helper lifecycle observes
    /// it.  Only the error of a helper is retained, and only if it says that
    /// the request was invalid.
    pub fn record_turn_error(&mut self, source: &SessionSource, error: &TurnError)
        ensures
            final(self)@ == if has_helper_role(*source) && error is InvalidRequest {
                Some(error->message@)
            } else {
                old(self)@
            },
    {
        if !is_helper_source(source) {
            return;
        }
        match error {
            TurnError::InvalidRequest { message } => {
                self.failure = Some(TerminalFailure::InvalidRequest { message: message.clone() });
            },
            TurnError::Other => {},
        }
    }

    /// Returns the helper failure that was retained.
    pub fn terminal_failure(&self) -> (failure: Option<&TerminalFailure>)
        ensures
            (match failure {
                Some(failure) => self@ == Some(failure->message@),
                None => self@ is None,
            }),
    {
        match &self.failure {
            Some(failure) => Some(failure),
            None => None,
        }
    }
}

/// What clients of the parent are told.
#[derive(Debug)]
pub enum SupervisorEvent {
    GoalUpdated {
        id: String,
        thread_id: ThreadId,
        turn_id: Option<String>,
        goal: ProtocolGoal,
    },
    Warning { id: String, message: String },
}

/// `prefix` followed by a thread identifier.
pub fn event_id(prefix: &str, thread_id: ThreadId) -> (id: String)
    ensures
        id@ == prefix@ + thread_id_text(thread_id.value),
{
    let mut id: String = prefix.to_string();
    id.append(thread_id.to_text().as_str());
    id
}

/// Why a goal could not be blocked.
pub const CHANGED_BEFORE_BLOCKED: &'static str =
    "the active goal changed before it could be blocked";

/// What clients are told once the goal of `thread_id` has been blocked, given
/// what the conditional update of the goal returned.
pub fn blocked_goal_events(
    thread_id: ThreadId,
    updated: Option<ThreadGoal>,
    failure: &TerminalFailure,
) -> (events: Result<(SupervisorEvent, SupervisorEvent), &'static str>)
    ensures
        (match events {
            Err(message) => updated is None && message@ == CHANGED_BEFORE_BLOCKED@,
            Ok((update, warning)) => {
                &&& updated is Some
                &&& update is GoalUpdated
                &&& update->GoalUpdated_id@ == "saffron-supervisor-blocked-"@ + thread_id_text(
                    thread_id.value,
                )
                &&& update->thread_id == thread_id
                &&& update->turn_id is None
                &&& shows(update->goal, updated->0@)
                &&& warning is Warning
                &&& warning->Warning_id@ == "saffron-supervisor-blocked-warning-"@ + thread_id_text(
                    thread_id.value,
                )
                &&& warning->message@ == "Saffron goal supervisor blocked the active goal: "@
                    + failure->message@
            },
        }),
{
    match updated {
        None => Err(CHANGED_BEFORE_BLOCKED),
        Some(goal) => {
            let mut message: String =
                "Saffron goal supervisor blocked the active goal: ".to_string();
            message.append(failure.message());
            Ok(
                (
                    SupervisorEvent::GoalUpdated {
                        id: event_id("saffron-supervisor-blocked-", thread_id),
                        thread_id,
                        turn_id: None,
                        goal: protocol_goal(&goal),
                    },
                    SupervisorEvent::Warning {
                        id: event_id("saffron-supervisor-blocked-warning-", thread_id),
                        message,
                    },
                ),
            )
        },
    }
}

} // verus!
