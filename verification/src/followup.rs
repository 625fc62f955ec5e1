//! Delivery of a goal supervisor's actionable result to its parent.
use vstd::prelude::*;

use crate::await_exec::AWAIT_TOOL_NAME;
use crate::ids::ThreadId;
use crate::registry::registered_name;
use crate::registry::RegisteredTool;
use crate::text::characters;
use crate::text::trim;
use crate::text::trimmed;
use crate::tool_spec::saffron_tool;
use crate::tool_spec::ToolName;
use crate::tool_spec::NAMESPACE;

verus! {

/// The name of the tool within the library's own namespace.
pub const FOLLOWUP_TOOL_NAME: &'static str = "followup_parent";

/// Names the tool.
pub fn followup_tool_name() -> (name: ToolName)
    ensures
        name.namespace@ == NAMESPACE@,
        name.name@ == FOLLOWUP_TOOL_NAME@,
{
    saffron_tool(FOLLOWUP_TOOL_NAME)
}

/// The tool shares its name with no other tool of the namespace.
pub proof fn followup_tool_has_a_name_of_its_own(tool: RegisteredTool)
    ensures
        registered_name(tool) != FOLLOWUP_TOOL_NAME@,
        AWAIT_TOOL_NAME@ != FOLLOWUP_TOOL_NAME@,
{
    reveal_strlit("followup_parent");
    reveal_strlit("await_exec");
    reveal_strlit("edit_active_goal");
    reveal_strlit("resume_goal");
    reveal_strlit("supervisor_followup_parent");
    reveal_strlit("supervisor_snooze");
    reveal_strlit("supervisor_compact_parent_context");
    reveal_strlit("supervisor_close_self");
    assert(FOLLOWUP_TOOL_NAME@.len() == 15);
    assert(AWAIT_TOOL_NAME@.len() != 15);
    assert(registered_name(tool).len() != 15);
}

/// The path of the root agent.
pub const ROOT_AGENT_PATH: &'static str = "/root";

/// Why a follow-up is refused.
#[derive(Clone, Copy, Debug, PartialEq, Eq, Structural)]
pub enum FollowupRefusal {
    /// There is nothing but whitespace to deliver.
    EmptyMessage,
    /// The caller supervises nothing.
    NotSupervising,
}

/// The sentence that reports a refusal.  It names the tool as it is offered.
pub open spec fn refusal_text(refusal: FollowupRefusal) -> Seq<char> {
    match refusal {
        FollowupRefusal::EmptyMessage => "Empty message can't be sent to the supervised parent"@,
        FollowupRefusal::NotSupervising => NAMESPACE@ + "."@ + FOLLOWUP_TOOL_NAME@
            + " is only available in goal supervisor check-in threads."@,
    }
}

impl FollowupRefusal {
    /// The sentence that reports this refusal.
    pub fn message(&self) -> (message: String)
        ensures
            message@ == refusal_text(*self),
    {
        match self {
            FollowupRefusal::EmptyMessage => {
                "Empty message can't be sent to the supervised parent".to_string()
            },
            FollowupRefusal::NotSupervising => {
                let mut message: String = NAMESPACE.to_string();
                message.append(".");
                message.append(FOLLOWUP_TOOL_NAME);
                message.append(" is only available in goal supervisor check-in threads.");
                message
            },
        }
    }
}

/// How a message is delivered.
#[derive(Clone, Copy, Debug, PartialEq, Eq, Structural)]
pub enum MessageForm {
    /// Rendered as a new task, in plain text.
    RenderedTask,
    /// Encrypted.
    Encrypted,
}

/// A message to the supervised parent.  It triggers a turn of the parent.
#[derive(Debug)]
pub struct FollowupPlan {
    pub parent_thread_id: ThreadId,
    pub author: String,
    pub receiver: String,
    pub message: String,
    pub form: MessageForm,
    pub trigger_turn: bool,
}

/// The path of an agent; that of the root, where none is known.
pub open spec fn path_or_root(path: Option<String>) -> Seq<char> {
    match path {
        Some(path) => path@,
        None => ROOT_AGENT_PATH@,
    }
}

fn agent_path(path: Option<String>) -> (known: String)
    ensures
        known@ == path_or_root(path),
{
    match path {
        Some(path) => path,
        None => ROOT_AGENT_PATH.to_string(),
    }
}

/// Plans the delivery of a message to the supervised parent.
///
/// The message is delivered as it was given, whitespace included.
pub fn plan_followup(
    message: String,
    parent_thread_id: Option<ThreadId>,
    author: Option<String>,
    receiver: Option<String>,
    is_direct_plaintext: bool,
) -> (plan: Result<FollowupPlan, FollowupRefusal>)
    ensures
        (match plan {
            Ok(plan) => {
                &&& trimmed(message@).len() > 0
                &&& parent_thread_id == Some(plan.parent_thread_id)
                &&& plan.author@ == path_or_root(author)
                &&& plan.receiver@ == path_or_root(receiver)
                &&& plan.message@ == message@
                &&& plan.form == (if is_direct_plaintext {
                    MessageForm::RenderedTask
                } else {
                    MessageForm::Encrypted
                })
                &&& plan.trigger_turn
            },
            Err(FollowupRefusal::EmptyMessage) => trimmed(message@).len() == 0,
            Err(FollowupRefusal::NotSupervising) => trimmed(message@).len() > 0
                && parent_thread_id is None,
        }),
{
    if characters(trim(message.as_str())).len() == 0 {
        return Err(FollowupRefusal::EmptyMessage);
    }
    match parent_thread_id {
        None => Err(FollowupRefusal::NotSupervising),
        Some(parent_thread_id) => Ok(
            FollowupPlan {
                parent_thread_id,
                author: agent_path(author),
                receiver: agent_path(receiver),
                message,
                form: if is_direct_plaintext {
                    MessageForm::RenderedTask
                } else {
                    MessageForm::Encrypted
                },
                trigger_turn: true,
            },
        ),
    }
}

/// What has been done of a follow-up.
#[derive(Clone, Copy, Debug, PartialEq, Eq, Structural)]
pub enum FollowupEvent {
    /// The message was sent.
    Sent,
    /// The follow-up was recorded as the helper's action.
    Recorded,
    /// The helper was finished; `delivered` says whether that was this
    /// follow-up's doing.
    HelperFinished { delivered: bool },
    /// One of these failed.
    Failed,
}

/// What is done of a follow-up next.
#[derive(Clone, Copy, Debug, PartialEq, Eq, Structural)]
pub enum FollowupStep {
    /// Record the follow-up as the helper's action.
    Record,
    /// Finish the helper.
    FinishHelper,
    /// Answer the call.  A delivered follow-up ends the turn without a
    /// response.
    Answer { delivered: bool, ends_turn: bool },
    /// Report the failure.
    Report,
}

/// Decides what is done of a follow-up next: it is sent, then recorded, then
/// the helper is finished, and the first failure is reported.
pub fn followup_step(event: FollowupEvent) -> (step: FollowupStep)
    ensures
        step == (match event {
            FollowupEvent::Sent => FollowupStep::Record,
            FollowupEvent::Recorded => FollowupStep::FinishHelper,
            FollowupEvent::HelperFinished { delivered } => FollowupStep::Answer {
                delivered,
                ends_turn: delivered,
            },
            FollowupEvent::Failed => FollowupStep::Report,
        }),
{
    match event {
        FollowupEvent::Sent => FollowupStep::Record,
        FollowupEvent::Recorded => FollowupStep::FinishHelper,
        FollowupEvent::HelperFinished { delivered } => FollowupStep::Answer {
            delivered,
            ends_turn: delivered,
        },
        FollowupEvent::Failed => FollowupStep::Report,
    }
}

/// An agent without a path of its own is taken for the root.
pub proof fn agents_without_a_path_are_the_root(path: Option<String>)
    ensures
        path is Some ==> path_or_root(path) == path->0@,
        path is None ==> path_or_root(path) == "/root"@,
{
}

} // verus!
