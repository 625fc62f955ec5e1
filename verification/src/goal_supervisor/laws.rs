//! What supervision decides, stated over the fields of what it remembers, of
//! the goal and of what it is told.
use vstd::prelude::*;

use super::actions::after_effect;
use super::actions::wake_belongs_to;
use super::actions::with_retry;
use super::guidance::guidance_change;
use super::guidance::guidance_for;
use super::guidance::is_guidance;
use super::guidance::is_legacy_guidance;
use super::guidance::is_marked;
use super::guidance::snapshot_guidance;
use super::guidance::told_before;
use super::guidance::PreviousWorldStateSection;
use super::guidance::INSTRUCTIONS;
use super::guidance::REMOVAL_NOTICE;
use super::guidance::REPLACEMENT_NOTICE;
use super::history::is_evidence;
use super::history::RolloutItemKind;
use super::identity::has_helper_role;
use super::prompt::action_field;
use super::prompt::assignment;
use super::prompt::continuity_members;
use super::prompt::instructions_with;
use super::prompt::HELPER_INSTRUCTIONS;
use super::runtime::CheckinStep;
use super::runtime::Snooze;
use super::runtime::checkin;
use super::runtime::edit_error;
use super::runtime::helper_end;
use super::runtime::is_active;
use super::runtime::is_active_goal;
use super::runtime::is_due;
use super::runtime::is_editing;
use super::runtime::retry_seconds;
use super::runtime::retry_warning_text;
use super::runtime::select_error;
use super::runtime::snooze_of;
use super::runtime::two_to;
use super::runtime::with_action;
use super::runtime::with_edit;
use super::runtime::with_failure;
use super::runtime::Action;
use super::runtime::CheckinView;
use super::runtime::EditError;
use super::runtime::GoalEditState;
use super::runtime::HelperEnd;
use super::runtime::IdleRetention;
use super::runtime::RuntimeView;
use super::runtime::SelectError;
use super::runtime::SnoozeView;
use crate::clock::Moment;
use crate::goals::ThreadGoalStatus;
use crate::goals::ThreadGoalView;
use crate::ids::thread_id_text;
use crate::ids::ThreadId;
use crate::json::text_members;
use crate::json::JsonFieldView;
use crate::sources::SessionSource;
use crate::sources::SubAgentSource;
use crate::storage::WakeView;
use crate::text::decimal;
use crate::text::trim_end;
use crate::text::trim_start;

verus! {

/// Whether what is remembered puts off the check-in on a goal: it is about that
/// goal, and a snooze whose wake has the goal's identity, objective and time of
/// revision ends after `now`.
pub open spec fn puts_off(state: RuntimeView, goal: ThreadGoalView, now: Moment) -> bool {
    &&& state.goal_id == Some(goal.goal_id)
    &&& state.snooze is Some
    &&& state.snooze->0.wake.goal_id == goal.goal_id
    &&& state.snooze->0.wake.goal_objective == goal.objective
    &&& state.snooze->0.wake.goal_updated_at_ms == goal.updated_at_ms
    &&& now.nanos < state.snooze->0.deadline.nanos
}

/// Whether a helper that is alive is at work for a goal.
pub open spec fn has_live_helper(
    state: RuntimeView,
    goal: ThreadGoalView,
    helper_is_live: bool,
) -> bool {
    helper_is_live && match state.active {
        Some(helper) => helper.goal_revision.goal_id == goal.goal_id,
        None => false,
    }
}

/// The number after a generation.
pub open spec fn advanced(generation: u64) -> int {
    if generation < u64::MAX {
        generation + 1
    } else {
        0
    }
}

/// A check-in waits only for a snooze that was set for the goal's identity,
/// objective and time of revision, and is still to end.  An idle root without
/// a live helper whose goal has another objective or another time of revision
/// than the wake, or whose snooze has ended, gets a helper.
pub proof fn checkin_waits_only_for_the_revision_in_the_wake(
    state: RuntimeView,
    parent_is_sub_agent: bool,
    parent_is_busy: bool,
    helper_is_live: bool,
    goal: ThreadGoalView,
    now: Moment,
)
    ensures
        ({
            let step = checkin(
                state,
                parent_is_sub_agent,
                parent_is_busy,
                helper_is_live,
                goal,
                now,
            ).1;
            let unattended = !parent_is_sub_agent && !parent_is_busy && !has_live_helper(
                state,
                goal,
                helper_is_live,
            );
            &&& step is NotRoot <==> parent_is_sub_agent
            &&& step is Busy <==> !parent_is_sub_agent && parent_is_busy
            &&& step is AlreadySupervised <==> !parent_is_sub_agent && !parent_is_busy
                && has_live_helper(state, goal, helper_is_live)
            &&& step is Wait <==> unattended && puts_off(state, goal, now)
            &&& step is Spawn <==> unattended && !puts_off(state, goal, now)
            &&& step is Wait ==> {
                &&& state.snooze->0.wake.goal_id == goal.goal_id
                &&& state.snooze->0.wake.goal_objective == goal.objective
                &&& state.snooze->0.wake.goal_updated_at_ms == goal.updated_at_ms
            }
            &&& unattended && state.snooze is Some && (state.snooze->0.wake.goal_objective
                != goal.objective || state.snooze->0.wake.goal_updated_at_ms
                != goal.updated_at_ms) ==> step is Spawn
        }),
{
}

/// What a check-in leaves remembered.  One that waits keeps the snooze, under a
/// new generation; one that starts a helper drops it, and remembers of the past
/// only what was about the same goal.  Either way the helper that was there is
/// retired.
pub proof fn checkin_leaves_what_is_about_the_goal(
    state: RuntimeView,
    helper_is_live: bool,
    goal: ThreadGoalView,
    now: Moment,
)
    requires
        !has_live_helper(state, goal, helper_is_live),
    ensures
        ({
            let (after, step) = checkin(state, false, false, helper_is_live, goal, now);
            let same_goal = state.goal_id == Some(goal.goal_id);
            let retired = match step {
                CheckinView::Wait(retire, _, _) => retire,
                CheckinView::Spawn(retire) => retire,
                _ => None,
            };
            &&& after.goal_id == Some(goal.goal_id)
            &&& after.consecutive_failures == if same_goal {
                state.consecutive_failures
            } else {
                0
            }
            &&& after.previous_action == if same_goal {
                state.previous_action
            } else {
                None
            }
            &&& retired is Some <==> state.active is Some
            &&& state.active is Some ==> retired->0 == state.active->0.thread_id
            &&& step matches CheckinView::Wait(_, snooze, generation) ==> {
                &&& Some(snooze) == state.snooze
                &&& generation == advanced(state.wake_generation)
                &&& after.wake_generation == generation
                &&& after.snooze == state.snooze
                &&& after.active == state.active
            }
            &&& step is Spawn ==> {
                &&& after.active is None
                &&& after.snooze is None
                &&& same_goal && state.snooze is Some ==> after.wake_generation == advanced(
                    state.wake_generation,
                )
                &&& !(same_goal && state.snooze is Some) ==> after.wake_generation
                    == state.wake_generation
            }
        }),
{
}

/// A helper may select an action exactly if it is the active one, has selected
/// none and has no edit in flight; else the first of these that fails is told.
pub proof fn action_is_selected_once_by_the_active_helper(state: RuntimeView, helper_id: ThreadId)
    ensures
        match select_error(state, helper_id) {
            None => state.active is Some && state.active->0.thread_id == helper_id
                && state.active->0.action is None && state.active->0.edit_state
                != GoalEditState::InFlight,
            Some(SelectError::NotActive) => !(state.active is Some
                && state.active->0.thread_id == helper_id),
            Some(SelectError::AlreadySelected) => state.active is Some
                && state.active->0.thread_id == helper_id && state.active->0.action is Some,
            Some(SelectError::EditInFlight) => state.active is Some
                && state.active->0.thread_id == helper_id && state.active->0.action is None
                && state.active->0.edit_state == GoalEditState::InFlight,
        },
{
}

/// A helper may edit the goal exactly if it is the active one, has selected no
/// action and has begun no edit that has not failed; else the first of these
/// that fails is told.
pub proof fn goal_is_edited_once_by_the_active_helper(state: RuntimeView, helper_id: ThreadId)
    ensures
        match edit_error(state, helper_id) {
            None => state.active is Some && state.active->0.thread_id == helper_id
                && state.active->0.action is None && state.active->0.edit_state
                == GoalEditState::Available,
            Some(EditError::NotActive) => !(state.active is Some && state.active->0.thread_id
                == helper_id),
            Some(EditError::DispositionSelected) => state.active is Some
                && state.active->0.thread_id == helper_id && state.active->0.action is Some,
            Some(EditError::EditInFlight) => state.active is Some && state.active->0.thread_id
                == helper_id && state.active->0.action is None && state.active->0.edit_state
                == GoalEditState::InFlight,
            Some(EditError::AlreadyEdited) => state.active is Some && state.active->0.thread_id
                == helper_id && state.active->0.action is None && state.active->0.edit_state
                == GoalEditState::Committed,
        },
        is_active(state, helper_id) <==> state.active is Some && state.active->0.thread_id
            == helper_id,
        is_editing(state, helper_id) <==> state.active is Some && state.active->0.thread_id
            == helper_id && state.active->0.edit_state == GoalEditState::InFlight,
{
}

/// Whether two states agree on everything but the active helper.
pub open spec fn agree_but_for_the_helper(a: RuntimeView, b: RuntimeView) -> bool {
    &&& a.goal_id == b.goal_id
    &&& a.snooze == b.snooze
    &&& a.consecutive_failures == b.consecutive_failures
    &&& a.previous_action == b.previous_action
    &&& a.wake_generation == b.wake_generation
}

/// Selecting an action, and beginning or ending an edit, change one field of
/// the active helper and nothing else.
pub proof fn selections_and_edits_change_one_field(
    state: RuntimeView,
    action: Option<Action>,
    edit_state: GoalEditState,
)
    requires
        state.active is Some,
    ensures
        ({
            let helper = state.active->0;
            let selected = with_action(state, action);
            let edited = with_edit(state, edit_state);
            &&& agree_but_for_the_helper(selected, state)
            &&& agree_but_for_the_helper(edited, state)
            &&& selected.active is Some && edited.active is Some
            &&& selected.active->0.action == action
            &&& selected.active->0.thread_id == helper.thread_id
            &&& selected.active->0.goal_revision == helper.goal_revision
            &&& selected.active->0.edit_state == helper.edit_state
            &&& edited.active->0.edit_state == edit_state
            &&& edited.active->0.thread_id == helper.thread_id
            &&& edited.active->0.goal_revision == helper.goal_revision
            &&& edited.active->0.action == helper.action
        }),
{
}

/// An action whose effect succeeded is remembered as the one before, and no
/// failure is; one whose effect failed is taken back from the helper that
/// selected it, and nothing else changes.
pub proof fn only_effective_actions_are_remembered(
    state: RuntimeView,
    helper_id: ThreadId,
    action: Action,
)
    ensures
        ({
            let done = after_effect(state, helper_id, action, true);
            &&& done.previous_action == Some(action)
            &&& done.consecutive_failures == 0
            &&& done.active == state.active
            &&& done.snooze == state.snooze
            &&& done.goal_id == state.goal_id
            &&& done.wake_generation == state.wake_generation
        }),
        ({
            let failed = after_effect(state, helper_id, action, false);
            let selected = state.active is Some && state.active->0.thread_id == helper_id
                && state.active->0.action == Some(action);
            &&& agree_but_for_the_helper(failed, state)
            &&& !selected ==> failed.active == state.active
            &&& selected ==> failed.active is Some && failed.active->0.action is None
                && failed.active->0.thread_id == helper_id && failed.active->0.goal_revision
                == state.active->0.goal_revision && failed.active->0.edit_state
                == state.active->0.edit_state
        }),
{
}

/// A wake is acted on exactly if it is of the present generation and is the one
/// that is snoozed for, in every field.
pub proof fn only_the_wake_snoozed_for_is_due(state: RuntimeView, generation: u64, wake: WakeView)
    ensures
        is_due(state, generation, wake) <==> {
            &&& state.snooze is Some
            &&& state.wake_generation == generation
            &&& state.snooze->0.wake.thread_id == wake.thread_id
            &&& state.snooze->0.wake.goal_id == wake.goal_id
            &&& state.snooze->0.wake.goal_objective == wake.goal_objective
            &&& state.snooze->0.wake.goal_updated_at_ms == wake.goal_updated_at_ms
            &&& state.snooze->0.wake.wake_at_ms == wake.wake_at_ms
        },
{
}

/// The end of the active helper settles its check-in if it selected an action;
/// else it blocks the goal if its failure is terminal, and fails the check-in
/// if not.  The end of any other is ignored.
pub proof fn end_of_a_helper_is_judged_by_its_action(
    state: RuntimeView,
    helper_id: ThreadId,
    has_terminal_failure: bool,
)
    ensures
        ({
            let active = state.active is Some && state.active->0.thread_id == helper_id;
            let decided = active && state.active->0.action is Some;
            let end = helper_end(state, helper_id, has_terminal_failure);
            &&& end == HelperEnd::Ignored <==> !active
            &&& end == HelperEnd::Settled <==> decided
            &&& end == HelperEnd::Blocked <==> active && !decided && has_terminal_failure
            &&& end == HelperEnd::Failed <==> active && !decided && !has_terminal_failure
        }),
{
}

/// The first retry comes after a minute, and each further failure doubles the
/// time, up to an hour.
pub proof fn retries_double_up_to_an_hour(failures: u32)
    ensures
        retry_seconds(0) == 60,
        retry_seconds(1) == 60,
        1 <= failures < u32::MAX ==> retry_seconds((failures + 1) as u32) == if 2 * retry_seconds(
            failures,
        ) <= 3600 {
            2 * retry_seconds(failures)
        } else {
            3600
        },
{
    reveal_with_fuel(two_to, 8);
}

/// A failure is counted, as far as the counter goes, and nothing else changes.
pub proof fn failures_are_counted(state: RuntimeView)
    ensures
        ({
            let failed = with_failure(state);
            &&& state.consecutive_failures < u32::MAX ==> failed.consecutive_failures
                == state.consecutive_failures + 1
            &&& state.consecutive_failures == u32::MAX ==> failed.consecutive_failures == u32::MAX
            &&& failed.active == state.active
            &&& failed.goal_id == state.goal_id
            &&& failed.snooze == state.snooze
            &&& failed.previous_action == state.previous_action
            &&& failed.wake_generation == state.wake_generation
        }),
{
}

/// A retry that is put off is snoozed for under a new generation, and nothing
/// else changes.
pub proof fn put_off_retry_is_snoozed_for(state: RuntimeView, snooze: SnoozeView)
    ensures
        ({
            let after = with_retry(state, snooze);
            &&& after.snooze == Some(snooze)
            &&& after.wake_generation == advanced(state.wake_generation)
            &&& after.active == state.active
            &&& after.goal_id == state.goal_id
            &&& after.consecutive_failures == state.consecutive_failures
            &&& after.previous_action == state.previous_action
        }),
{
}

/// A snooze is for the goal's thread, identity, objective and time of revision,
/// and ends so many seconds later as it was asked to last: by the monotonic
/// clock, and by the wall clock as far as that can tell.  Until it is stored,
/// only this process knows of it.
pub proof fn snooze_lasts_its_delay(
    goal: ThreadGoalView,
    delay_seconds: u64,
    now_ms: i64,
    now: Moment,
)
    requires
        now.nanos + delay_seconds * 1_000_000_000 <= u128::MAX,
    ensures
        ({
            let snooze = snooze_of(goal, delay_seconds, now_ms, now);
            let wake_at = snooze.wake.wake_at_ms;
            &&& snooze.wake.thread_id == goal.thread_id
            &&& snooze.wake.goal_id == goal.goal_id
            &&& snooze.wake.goal_objective == goal.objective
            &&& snooze.wake.goal_updated_at_ms == goal.updated_at_ms
            &&& snooze.deadline.nanos - now.nanos == delay_seconds * 1_000_000_000
            &&& snooze.idle_retention == IdleRetention::Required
            &&& now_ms >= 0 && now_ms + delay_seconds * 1000 <= i64::MAX ==> wake_at == now_ms
                + delay_seconds * 1000
            &&& now_ms >= 0 && now_ms + delay_seconds * 1000 > i64::MAX ==> wake_at == i64::MAX
            &&& now_ms < 0 && delay_seconds * 1000 <= i64::MAX ==> wake_at == now_ms
                + delay_seconds * 1000
            &&& now_ms < 0 && delay_seconds * 1000 > i64::MAX ==> wake_at == now_ms + i64::MAX
        }),
{
}

/// A goal is the one that a helper was started for exactly if it has that
/// identity and is active; a wake belongs to a goal exactly if it has that
/// identity.
pub proof fn goals_are_known_by_identity(
    goal: ThreadGoalView,
    goal_id: Seq<char>,
    wakes: Map<u128, WakeView>,
    id: ThreadId,
)
    ensures
        !is_active_goal(None, goal_id),
        is_active_goal(Some(goal), goal_id) <==> goal.status == ThreadGoalStatus::Active
            && goal.goal_id == goal_id,
        wake_belongs_to(wakes, id, goal_id) <==> wakes.dom().contains(id.value)
            && wakes[id.value].goal_id == goal_id,
{
}

/// A warning of a retry holds the error, and the seconds until the retry.
pub proof fn retry_warning_tells_the_error_and_the_delay(error: Seq<char>, delay_seconds: u64)
    ensures
        retry_warning_text(error, delay_seconds) == ("Saffron goal supervisor failed: "@ + error) + (
        ". Retrying in "@ + (decimal(delay_seconds as nat) + "s."@)),
{
    assert(retry_warning_text(error, delay_seconds) =~= ("Saffron goal supervisor failed: "@
        + error) + (". Retrying in "@ + (decimal(delay_seconds as nat) + "s."@)));
}

/// A session is a helper's exactly if it was spawned for a thread in the role
/// of goal supervisor.
pub proof fn helpers_are_known_by_their_role(source: SessionSource)
    ensures
        has_helper_role(source) <==> match source {
            SessionSource::SubAgent(
                SubAgentSource::ThreadSpawn { agent_role: Some(role), .. },
            ) => role@ == "goal_supervisor"@,
            _ => false,
        },
{
}

/// What a fork for a helper keeps of a thread's record are the items of the
/// conversation itself: responses, and what agents said to each other.
pub proof fn evidence_is_what_was_said(item: RolloutItemKind)
    ensures
        is_evidence(item) <==> !(item == RolloutItemKind::SessionMeta || item
            == RolloutItemKind::Compacted || item == RolloutItemKind::TurnContext || item
            == RolloutItemKind::EventMsg || item == RolloutItemKind::Other),
{
}

/// The model is told nothing exactly if it is known to have been told what it
/// should be told, or nothing where there is nothing to tell.
pub proof fn model_is_told_exactly_what_changed(
    instructions: Option<Seq<char>>,
    before: Option<Option<Seq<char>>>,
)
    ensures
        guidance_change(instructions, before) is None <==> before is Some && before->0
            == instructions,
        instructions is Some && before == Some(None::<Seq<char>>) ==> guidance_change(
            instructions,
            before,
        ) == Some("\n"@ + instructions->0 + "\n"@),
        instructions is Some && before != Some(None::<Seq<char>>) && before != Some(instructions)
            ==> guidance_change(instructions, before) == Some(
            "\n"@ + (REPLACEMENT_NOTICE@ + "\n\n"@ + instructions->0) + "\n"@,
        ),
        instructions is None && before != Some(None::<Seq<char>>) ==> guidance_change(
            instructions,
            before,
        ) == Some("\n"@ + REMOVAL_NOTICE@ + "\n"@),
{
}

/// What the model was told before is nothing if the section was absent, what
/// the snapshot holds if there is one, and else not known.
pub proof fn snapshot_tells_what_was_told(snapshot: &serde_json::Value, enabled: bool)
    ensures
        told_before(PreviousWorldStateSection::Absent) == Some(None::<Seq<char>>),
        told_before(PreviousWorldStateSection::Unknown) is None,
        told_before(PreviousWorldStateSection::Known(snapshot)) == Some(
            snapshot_guidance(*snapshot),
        ),
        snapshot_guidance(*snapshot) is Some <==> text_members(*snapshot).dom().contains(
            "instructions"@,
        ),
        snapshot_guidance(*snapshot) is Some ==> snapshot_guidance(*snapshot)->0 == text_members(
            *snapshot,
        )["instructions"@],
        guidance_for(enabled) is Some <==> enabled,
        enabled ==> guidance_for(enabled)->0 == INSTRUCTIONS@,
{
}

/// A message is guidance exactly if it is a developer's and, with any
/// whitespace before and after it taken off, begins and ends with the markers.
pub proof fn guidance_stands_between_its_markers(
    role: Seq<char>,
    text: Seq<char>,
    start: Seq<char>,
    end: Seq<char>,
)
    ensures
        is_marked(role, text, start, end) <==> role == "developer"@ && start.is_prefix_of(
            trim_start(text),
        ) && end.is_suffix_of(trim_end(text)),
        is_guidance(role, text) <==> is_marked(
            role,
            text,
            "<saffron_goal_supervisor>"@,
            "</saffron_goal_supervisor>"@,
        ),
        is_legacy_guidance(role, text) <==> is_guidance(role, text) || is_marked(
            role,
            text,
            "<saffron_goal_waiting>"@,
            "</saffron_goal_waiting>"@,
        ),
{
}

/// Instructions that a helper already has come first, and its own last.
pub proof fn helper_keeps_its_instructions(existing: Seq<char>)
    ensures
        instructions_with(None) == HELPER_INSTRUCTIONS@,
        existing.is_prefix_of(instructions_with(Some(existing))),
        HELPER_INSTRUCTIONS@.is_suffix_of(instructions_with(Some(existing))),
        instructions_with(Some(existing)).len() == existing.len() + 2 + HELPER_INSTRUCTIONS@.len(),
{
    reveal_strlit("\n\n");
    assert("\n\n"@.len() == 2);
    let whole = instructions_with(Some(existing));
    assert(whole.subrange(0, existing.len() as int) =~= existing);
    assert(whole.subrange(whole.len() - HELPER_INSTRUCTIONS@.len(), whole.len() as int)
        =~= HELPER_INSTRUCTIONS@);
}

/// An assignment names the time, the parent, the objective and the continuity,
/// in this order, and ends with the continuity.
pub proof fn assignment_names_time_parent_goal_and_past(
    parent_id: ThreadId,
    time: Seq<char>,
    objective: Seq<char>,
    continuity: Seq<char>,
)
    ensures
        assignment(parent_id, time, objective, continuity) == (
        "# Supervisor Check-in\n\nCurrent UTC time: "@ + time) + ("\n\nParent thread: "@
            + thread_id_text(parent_id.value)) + ("\n\nActive goal:\n"@ + objective) + (
        "\n\nContinuity:\n"@ + continuity),
{
    assert(assignment(parent_id, time, objective, continuity) =~= (
    "# Supervisor Check-in\n\nCurrent UTC time: "@ + time) + ("\n\nParent thread: "@
        + thread_id_text(parent_id.value)) + ("\n\nActive goal:\n"@ + objective) + (
    "\n\nContinuity:\n"@ + continuity));
}

/// What a helper is told of the goal's past: the goal's times in whole seconds,
/// what it has used, the action before and the failures in a row.
pub proof fn continuity_tells_times_usage_and_failures(
    goal: ThreadGoalView,
    previous_action: Option<Action>,
    consecutive_failures: u32,
)
    ensures
        ({
            let told = continuity_members(goal, previous_action, consecutive_failures);
            &&& told.len() == 6
            &&& told[0].0 == "goal_created_at"@ && told[0].1 is Integer
            &&& told[0].1->Integer_0 * 1000 <= goal.created_at_ms < (told[0].1->Integer_0 + 1)
                * 1000
            &&& told[1].0 == "goal_updated_at"@ && told[1].1 is Integer
            &&& told[1].1->Integer_0 * 1000 <= goal.updated_at_ms < (told[1].1->Integer_0 + 1)
                * 1000
            &&& told[2] == ("tokens_used"@, JsonFieldView::Integer(goal.tokens_used))
            &&& told[3] == ("time_used_seconds"@, JsonFieldView::Integer(goal.time_used_seconds))
            &&& told[4] == ("previous_action"@, action_field(previous_action))
            &&& told[5].0 == "consecutive_failures"@ && told[5].1 is Integer
            &&& told[5].1->Integer_0 == consecutive_failures
        }),
{
}

/// The action before is told by its name, a snooze with its delay; where there
/// was none, so is that.
pub proof fn previous_action_is_told_by_name(delay_seconds: u64)
    ensures
        action_field(None) == JsonFieldView::Null,
        action_field(Some(Action::Followup)) == JsonFieldView::Text("followup"@),
        action_field(Some(Action::Compact)) == JsonFieldView::Text("compact"@),
        action_field(Some(Action::Complete)) == JsonFieldView::Text("complete"@),
        action_field(Some(Action::Snooze { delay_seconds })) == JsonFieldView::Tagged(
            "snooze"@,
            "delay_seconds"@,
            delay_seconds,
        ),
{
}

/// What a check-in and a snooze say is what their fields hold.
pub proof fn content_of_a_checkin_is_its_fields(step: CheckinStep, held: Snooze)
    ensures
        step matches CheckinStep::Wait { retire, snooze, generation } ==> step@
            == CheckinView::Wait(retire, snooze@, generation),
        step matches CheckinStep::Spawn { retire } ==> step@ == CheckinView::Spawn(retire),
        step is NotRoot <==> step@ is NotRoot,
        step is Busy <==> step@ is Busy,
        step is AlreadySupervised <==> step@ is AlreadySupervised,
        held@.wake == held.wake@,
        held@.deadline == held.deadline,
        held@.idle_retention == held.idle_retention,
{
}

} // verus!
