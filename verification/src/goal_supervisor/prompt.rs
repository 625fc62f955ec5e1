//! The texts that a supervisor helper is started with.
use vstd::prelude::*;

use super::runtime::Action;
use crate::goals::protocol_goal;
use crate::goals::whole_seconds;
use crate::goals::ProtocolGoal;
use crate::goals::ThreadGoal;
use crate::goals::ThreadGoalView;
use crate::ids::thread_id_text;
use crate::ids::ThreadId;
use crate::json::json_object_text;
use crate::json::members;
use crate::json::object_text;
use crate::json::JsonField;
use crate::json::JsonFieldView;
use crate::json::JsonMember;
use crate::text::optional_chars;

verus! {

/// The instructions of a supervisor helper.
pub const HELPER_INSTRUCTIONS: &'static str = "# Saffron Goal Supervisor\n\nYou are a short-lived supervisory helper for an idle parent task. You inherit\nthe parent's history. An active goal continues autonomously.\n\nInspect the active goal and inherited evidence, then choose the first applicable\naction:\n\n1. `saffron.supervisor_close_self`: complete only when the evidence proves that\n   no required work remains.\n2. `saffron.supervisor_compact_parent_context`: compact only when context\n   pressure prevents useful progress.\n3. `saffron.supervisor_followup_parent`: follow up whenever the parent can make\n   useful progress now. Questions, uncertainty, missing preferences, and\n   internal decisions are unfinished work. Direct the parent to use a supported,\n   reversible assumption when possible. When user authority or information is\n   indispensable, wake the parent to advance the blocked-goal process.\n4. `saffron.supervisor_snooze`: snooze only when every unfinished part depends\n   on a future deadline or an external process that can change without parent\n   action, and no useful parent action remains. Mixed work requires a follow-up.\n   Snooze to a scheduled boundary, or use bounded, evidence-based backoff for an\n   external process.\n\nDo not perform the parent's work yourself. Do not create sub-agents. Do not\ncall more than one supervisor action. After the action returns, end your turn.\n";

/// How the time of a check-in is written.
pub const CHECKIN_TIME_FORMAT: &'static str = "%Y-%m-%d %H:%M:%S UTC";

/// The most tokens that the assignment of a helper may take once it has been
/// truncated.
pub const MAX_CHECKIN_PROMPT_TOKENS: usize = 1_000;

/// The developer instructions of a helper: those of its parent, if any, and
/// then its own.
pub open spec fn instructions_with(existing: Option<Seq<char>>) -> Seq<char> {
    match existing {
        Some(existing) => existing + "\n\n"@ + HELPER_INSTRUCTIONS@,
        None => HELPER_INSTRUCTIONS@,
    }
}

/// Makes the developer instructions of a helper from those of its parent.
pub fn helper_instructions(existing: Option<&str>) -> (instructions: String)
    ensures
        instructions@ == instructions_with(optional_chars(existing)),
{
    match existing {
        Some(existing) => {
            let mut instructions: String = existing.to_string();
            instructions.append("\n\n");
            instructions.append(HELPER_INSTRUCTIONS);
            instructions
        },
        None => HELPER_INSTRUCTIONS.to_string(),
    }
}

/// A time in UTC, written by a format of `chrono`.  `None` if `chrono` cannot
/// represent the time.
pub uninterp spec fn utc_text(seconds: i64, format: Seq<char>) -> Option<Seq<char>>;

/// Calls `chrono::DateTime::from_timestamp` and, on the time that it gives,
/// `format` and `to_string`.  Trusted: the text is a function of the seconds
/// since the epoch and the format, and there is none if the seconds are out of
/// range.  Some formats make `to_string` panic; the one that is admitted does
/// not.
#[verifier::external_body]
fn format_utc(seconds: i64, format: &str) -> (text: Option<String>)
    requires
        format@ == CHECKIN_TIME_FORMAT@,
    ensures
        (match text {
            Some(text) => utc_text(seconds, format@) == Some(text@),
            None => utc_text(seconds, format@) is None,
        }),
{
    chrono::DateTime::from_timestamp(seconds, 0).map(|time| time.format(format).to_string())
}

/// The assignment of a helper, as far as the time of the check-in.
pub open spec fn assignment_head(time: Seq<char>) -> Seq<char> {
    "# Supervisor Check-in\n\nCurrent UTC time: "@ + time
}

/// The assignment of a helper.
pub open spec fn assignment(
    parent_id: ThreadId,
    time: Seq<char>,
    objective: Seq<char>,
    continuity: Seq<char>,
) -> Seq<char> {
    assignment_head(time) + "\n\nParent thread: "@ + thread_id_text(parent_id.value)
        + "\n\nActive goal:\n"@ + objective + "\n\nContinuity:\n"@ + continuity
}

/// Writes the assignment of a helper, given the time of the check-in as text.
pub fn checkin_assignment(
    parent_id: ThreadId,
    time: &str,
    objective: &str,
    continuity: &str,
) -> (prompt: String)
    ensures
        prompt@ == assignment(parent_id, time@, objective@, continuity@),
{
    let mut prompt: String = "# Supervisor Check-in\n\nCurrent UTC time: ".to_string();
    prompt.append(time);
    prompt.append("\n\nParent thread: ");
    prompt.append(parent_id.to_text().as_str());
    prompt.append("\n\nActive goal:\n");
    prompt.append(objective);
    prompt.append("\n\nContinuity:\n");
    prompt.append(continuity);
    prompt
}

/// Writes the whole assignment of a helper, before it is truncated.  There is
/// none if the time of the check-in, in seconds since the epoch, cannot be
/// represented.
///
/// A helper is given this text after the host has truncated it to
/// [`MAX_CHECKIN_PROMPT_TOKENS`].  The time comes from the parent session's
/// clock for this helper.  It stands in the front part, which a middle
/// truncation preserves, so inherited history cannot become the helper's only
/// evidence of the current time.
pub fn render_assignment(
    parent_id: ThreadId,
    checkin_seconds: i64,
    objective: &str,
    continuity: &str,
) -> (whole: Option<String>)
    ensures
        (match whole {
            Some(whole) => utc_text(checkin_seconds, CHECKIN_TIME_FORMAT@) is Some && whole@
                == assignment(
                parent_id,
                utc_text(checkin_seconds, CHECKIN_TIME_FORMAT@)->0,
                objective@,
                continuity@,
            ),
            None => utc_text(checkin_seconds, CHECKIN_TIME_FORMAT@) is None,
        }),
{
    match format_utc(checkin_seconds, CHECKIN_TIME_FORMAT) {
        Some(time) => Some(
            checkin_assignment(parent_id, time.as_str(), objective, continuity),
        ),
        None => None,
    }
}

/// The time of the check-in stands at the front of the assignment, whatever
/// the objective and the continuity are.
pub proof fn assignment_begins_with_the_time(
    parent_id: ThreadId,
    time: Seq<char>,
    objective: Seq<char>,
    continuity: Seq<char>,
)
    ensures
        assignment_head(time).is_prefix_of(assignment(parent_id, time, objective, continuity)),
{
    let whole = assignment(parent_id, time, objective, continuity);
    let head = assignment_head(time);
    assert(whole.subrange(0, head.len() as int) =~= head);
}

/// What a helper is told of the action before.
pub open spec fn action_field(action: Option<Action>) -> JsonFieldView {
    match action {
        None => JsonFieldView::Null,
        Some(Action::Followup) => JsonFieldView::Text("followup"@),
        Some(Action::Snooze { delay_seconds }) => JsonFieldView::Tagged(
            "snooze"@,
            "delay_seconds"@,
            delay_seconds,
        ),
        Some(Action::Compact) => JsonFieldView::Text("compact"@),
        Some(Action::Complete) => JsonFieldView::Text("complete"@),
    }
}

/// What a helper is told of the goal's past.
pub open spec fn continuity_members(
    goal: ThreadGoalView,
    previous_action: Option<Action>,
    consecutive_failures: u32,
) -> Seq<(Seq<char>, JsonFieldView)> {
    seq![
        ("goal_created_at"@, JsonFieldView::Integer(whole_seconds(goal.created_at_ms) as i64)),
        ("goal_updated_at"@, JsonFieldView::Integer(whole_seconds(goal.updated_at_ms) as i64)),
        ("tokens_used"@, JsonFieldView::Integer(goal.tokens_used)),
        ("time_used_seconds"@, JsonFieldView::Integer(goal.time_used_seconds)),
        ("previous_action"@, action_field(previous_action)),
        ("consecutive_failures"@, JsonFieldView::Integer(consecutive_failures as i64)),
    ]
}

fn json_member(key: &str, field: JsonField) -> (member: JsonMember)
    ensures
        member.key@ == key@,
        member.field@ == field@,
{
    JsonMember { key: key.to_string(), field }
}

/// Gathers what a helper is told of the goal's past.
pub fn continuity_fields(
    goal: &ThreadGoal,
    previous_action: Option<Action>,
    consecutive_failures: u32,
) -> (fields: Vec<JsonMember>)
    ensures
        members(fields@) == continuity_members(goal@, previous_action, consecutive_failures),
{
    let shown: ProtocolGoal = protocol_goal(goal);
    let action: JsonField = match previous_action {
        None => JsonField::Null,
        Some(Action::Followup) => JsonField::Text("followup".to_string()),
        Some(Action::Snooze { delay_seconds }) => JsonField::Tagged {
            tag: "snooze".to_string(),
            key: "delay_seconds".to_string(),
            value: delay_seconds,
        },
        Some(Action::Compact) => JsonField::Text("compact".to_string()),
        Some(Action::Complete) => JsonField::Text("complete".to_string()),
    };
    let mut fields: Vec<JsonMember> = Vec::new();
    fields.push(json_member("goal_created_at", JsonField::Integer(shown.created_at)));
    fields.push(json_member("goal_updated_at", JsonField::Integer(shown.updated_at)));
    fields.push(json_member("tokens_used", JsonField::Integer(shown.tokens_used)));
    fields.push(json_member("time_used_seconds", JsonField::Integer(shown.time_used_seconds)));
    fields.push(json_member("previous_action", action));
    fields.push(
        json_member("consecutive_failures", JsonField::Integer(consecutive_failures as i64)),
    );
    proof {
        assert(members(fields@) =~= continuity_members(
            goal@,
            previous_action,
            consecutive_failures,
        ));
    }
    fields
}

/// Writes what a helper is told of the goal's past, as a JSON object.
pub fn continuity_text(
    goal: &ThreadGoal,
    previous_action: Option<Action>,
    consecutive_failures: u32,
) -> (text: String)
    ensures
        text@ == object_text(continuity_members(goal@, previous_action, consecutive_failures)),
{
    json_object_text(continuity_fields(goal, previous_action, consecutive_failures))
}

} // verus!
