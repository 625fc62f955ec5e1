//! Which tools are offered in a model step.
use vstd::prelude::*;

use crate::goal_edit::offers_root_edit;
use crate::goal_edit::register_root_if_available;
use crate::goal_edit::register_supervisor;
use crate::goal_edit::Authority;
use crate::goal_supervisor::identity::has_helper_role;
use crate::goal_supervisor::identity::is_helper_session;
use crate::goal_supervisor::tools::helper_tools;
use crate::goal_supervisor::tools::Kind;
use crate::goal_supervisor::tools::register;
use crate::registry::RegisteredTool;
use crate::registry::ToolRegistry;
use crate::sources::SessionSource;
use crate::sources::SubAgentSource;

verus! {

/// The tools authorized for a model step.
pub open spec fn authorized_tools(
    source: SessionSource,
    is_hidden_agent: bool,
    goals_enabled: bool,
    has_goal_state: bool,
) -> Seq<RegisteredTool> {
    if has_helper_role(source) && is_hidden_agent {
        seq![RegisteredTool::EditGoal(Authority::Supervisor)] + helper_tools()
    } else if offers_root_edit(source, goals_enabled, has_goal_state) {
        seq![RegisteredTool::EditGoal(Authority::Root)]
    } else {
        Seq::empty()
    }
}

/// Registers the tools authorized for a model step.
///
/// Root goal editing follows the goal feature and durable-state lifecycle.
/// Supervisor tools instead require both the unforgeable hidden-agent marker
/// and the helper role before they become model-visible.
pub fn register_tools(
    source: &SessionSource,
    is_hidden_agent: bool,
    goals_enabled: bool,
    has_goal_state: bool,
    registry: &mut ToolRegistry,
)
    ensures
        final(registry)@ == old(registry)@ + authorized_tools(
            *source,
            is_hidden_agent,
            goals_enabled,
            has_goal_state,
        ),
{
    if is_helper_session(source, is_hidden_agent) {
        register_supervisor(registry);
        register(registry);
        proof {
            let edit = RegisteredTool::EditGoal(Authority::Supervisor);
            assert(registry@ =~= old(registry)@ + (seq![edit] + helper_tools()));
        }
        return;
    }
    register_root_if_available(source, goals_enabled, has_goal_state, registry);
    proof {
        assert(registry@ =~= old(registry)@ + authorized_tools(
            *source,
            is_hidden_agent,
            goals_enabled,
            has_goal_state,
        ));
    }
}

/// A supervisor tool is offered to a hidden helper and to no other session.
pub proof fn only_hidden_helpers_get_supervisor_tools(
    source: SessionSource,
    is_hidden_agent: bool,
    goals_enabled: bool,
    has_goal_state: bool,
    tool: RegisteredTool,
)
    requires
        authorized_tools(source, is_hidden_agent, goals_enabled, has_goal_state).contains(tool),
        tool is Supervisor || tool == RegisteredTool::EditGoal(Authority::Supervisor),
    ensures
        has_helper_role(source) && is_hidden_agent,
{
}

/// A subagent gets no tool, unless it is a hidden helper.
pub proof fn other_subagents_get_no_tools(
    source: SessionSource,
    is_hidden_agent: bool,
    goals_enabled: bool,
    has_goal_state: bool,
)
    requires
        source is SubAgent,
        !(has_helper_role(source) && is_hidden_agent),
    ensures
        authorized_tools(source, is_hidden_agent, goals_enabled, has_goal_state).len() == 0,
{
}

/// Whether a session was spawned for a thread in the role of goal supervisor.
pub open spec fn is_spawned_as_supervisor(source: SessionSource) -> bool {
    match source {
        SessionSource::SubAgent(SubAgentSource::ThreadSpawn { agent_role: Some(role), .. }) => role@
            == "goal_supervisor"@,
        _ => false,
    }
}

/// A hidden helper is offered the edit of its parent's goal and the four
/// actions, each once.  Any root is offered the edit of its own goal while
/// goals are enabled and there is goal state.  No other tool is offered to
/// anyone.
pub proof fn tools_are_offered_by_role(
    source: SessionSource,
    is_hidden_agent: bool,
    goals_enabled: bool,
    has_goal_state: bool,
)
    ensures
        ({
            let tools = authorized_tools(source, is_hidden_agent, goals_enabled, has_goal_state);
            if is_spawned_as_supervisor(source) && is_hidden_agent {
                &&& tools.len() == 5
                &&& tools[0] == RegisteredTool::EditGoal(Authority::Supervisor)
                &&& tools[1] == RegisteredTool::Supervisor(Kind::Followup)
                &&& tools[2] == RegisteredTool::Supervisor(Kind::Snooze)
                &&& tools[3] == RegisteredTool::Supervisor(Kind::Compact)
                &&& tools[4] == RegisteredTool::Supervisor(Kind::Complete)
            } else if source is SubAgent {
                tools.len() == 0
            } else if goals_enabled && has_goal_state {
                tools.len() == 1 && tools[0] == RegisteredTool::EditGoal(Authority::Root)
            } else {
                tools.len() == 0
            }
        }),
        offers_root_edit(source, goals_enabled, has_goal_state) <==> goals_enabled
            && has_goal_state && match source {
            SessionSource::SubAgent(_) => false,
            _ => true,
        },
{
}

} // verus!
