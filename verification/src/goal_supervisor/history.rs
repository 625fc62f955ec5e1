//! Evidence retained when an idle parent forks its supervisor.
//!
//! Supervisors need tool results and agent messages to recognize completed
//! work even when the parent ends silently.  Ordinary agent forks may omit
//! those items.
use vstd::prelude::*;

use super::identity::has_helper_role;
use super::identity::is_helper_source;
use crate::sources::SessionSource;

verus! {

/// What an item of a thread's record is.
#[derive(Clone, Copy, Debug, PartialEq, Eq, Structural)]
pub enum RolloutItemKind {
    SessionMeta,
    ResponseItem,
    Compacted,
    TurnContext,
    EventMsg,
    InterAgentCommunication,
    InterAgentCommunicationMetadata,
    Other,
}

/// Whether an item is evidence of the conversation.
pub open spec fn is_evidence(item: RolloutItemKind) -> bool {
    item == RolloutItemKind::ResponseItem || item == RolloutItemKind::InterAgentCommunication
        || item == RolloutItemKind::InterAgentCommunicationMetadata
}

/// Retains conversation evidence omitted by the ordinary fork policy.
///
/// This supplements, rather than replaces, the selection of items: it does not
/// retain parent usage records or security-review state.  The caller must
/// still sanitize inherited instructions and compacted checkpoint metadata.
pub fn preserves_fork_item(source: &SessionSource, item: RolloutItemKind) -> (preserved: bool)
    ensures
        preserved == (has_helper_role(*source) && is_evidence(item)),
{
    is_helper_source(source) && match item {
        RolloutItemKind::ResponseItem => true,
        RolloutItemKind::InterAgentCommunication => true,
        RolloutItemKind::InterAgentCommunicationMetadata => true,
        _ => false,
    }
}

} // verus!
