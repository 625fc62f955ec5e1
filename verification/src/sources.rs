//! Where sessions and threads come from.
use vstd::prelude::*;

use crate::ids::ThreadId;

verus! {

/// How a subagent session came to be.
#[derive(Debug)]
pub enum SubAgentSource {
    Review,
    Compact,
    ThreadSpawn {
        parent_thread_id: ThreadId,
        depth: i32,
        agent_path: Option<String>,
        agent_nickname: Option<String>,
        agent_role: Option<String>,
    },
    Other(String),
}

/// What started a session.
#[derive(Debug)]
pub enum SessionSource {
    Cli,
    VsCode,
    Exec,
    AppServer,
    Custom(String),
    Internal,
    SubAgent(SubAgentSource),
    Unknown,
}

impl SessionSource {
    /// Whether the session belongs to a subagent.
    pub fn is_sub_agent(&self) -> (yes: bool)
        ensures
            yes == (self is SubAgent),
    {
        match self {
            SessionSource::SubAgent(_) => true,
            _ => false,
        }
    }
}

/// What a thread was started for.
#[derive(Clone, Copy, Debug, PartialEq, Eq, Structural)]
pub enum ThreadSource {
    User,
    Subagent,
    Other,
}

} // verus!
