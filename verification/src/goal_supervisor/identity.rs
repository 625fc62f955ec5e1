//! Stable identity for private goal-supervisor helper threads.
use vstd::prelude::*;

use crate::ids::ThreadId;
use crate::sources::SessionSource;
use crate::sources::SubAgentSource;
use crate::text::same_text;

verus! {

/// Role marker assigned to the process-local goal supervisor.
pub const HELPER_ROLE_NAME: &'static str = "goal_supervisor";

/// The path of the helper in the tree of agents.
pub const HELPER_PATH: &'static str = "/root/goal_supervisor";

/// Whether a session has the helper's role.
pub open spec fn has_helper_role(source: SessionSource) -> bool {
    source matches SessionSource::SubAgent(agent) && agent matches SubAgentSource::ThreadSpawn {
        agent_role,
        ..
    } && agent_role matches Some(role) && role@ == HELPER_ROLE_NAME@
}

/// Returns whether a session is the private helper.
///
/// Agent accounting and lifecycle code use this narrow predicate to keep the
/// helper outside user-facing agent limits and notifications.
pub fn is_helper_source(source: &SessionSource) -> (helper: bool)
    ensures
        helper == has_helper_role(*source),
{
    match source {
        SessionSource::SubAgent(SubAgentSource::ThreadSpawn { agent_role: Some(role), .. }) => {
            same_text(role.as_str(), HELPER_ROLE_NAME)
        },
        _ => false,
    }
}

/// Confirms both the private source identity and hidden registry membership.
pub fn is_helper_session(source: &SessionSource, is_hidden_agent: bool) -> (helper: bool)
    ensures
        helper == (has_helper_role(*source) && is_hidden_agent),
{
    is_helper_source(source) && is_hidden_agent
}

/// Why a session has no parent to supervise.
pub const NOT_A_HELPER: &'static str =
    "supervisor tools are available only in a Saffron supervisor helper";

/// The thread that a helper supervises, or why there is none.
pub fn parent_thread_for_helper(source: &SessionSource) -> (parent: Result<ThreadId, &'static str>)
    ensures
        (match parent {
            Ok(parent) => has_helper_role(*source) && parent
                == source->SubAgent_0->parent_thread_id,
            Err(message) => !has_helper_role(*source) && message@ == NOT_A_HELPER@,
        }),
{
    match source {
        SessionSource::SubAgent(
            SubAgentSource::ThreadSpawn { parent_thread_id, agent_role: Some(role), .. },
        ) => {
            if same_text(role.as_str(), HELPER_ROLE_NAME) {
                Ok(*parent_thread_id)
            } else {
                Err(NOT_A_HELPER)
            }
        },
        _ => Err(NOT_A_HELPER),
    }
}

/// The source of the helper of a thread, `depth` spawns below the root.
pub fn helper_source(parent_thread_id: ThreadId, depth: i32) -> (source: SessionSource)
    ensures
        has_helper_role(source),
        source->SubAgent_0->parent_thread_id == parent_thread_id,
        source->SubAgent_0->depth == depth,
        source->SubAgent_0->agent_path is Some,
        source->SubAgent_0->agent_path->0@ == HELPER_PATH@,
        source->SubAgent_0->agent_nickname is None,
{
    SessionSource::SubAgent(
        SubAgentSource::ThreadSpawn {
            parent_thread_id,
            depth,
            agent_path: Some(HELPER_PATH.to_string()),
            agent_nickname: None,
            agent_role: Some(HELPER_ROLE_NAME.to_string()),
        },
    )
}

} // verus!
