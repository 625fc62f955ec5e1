use saffrodex::clock::Moment;
use saffrodex::goal_edit::conclude_edit;
use saffrodex::goal_edit::root_edit_target;
use saffrodex::goal_edit::supervisor_edit_target;
use saffrodex::goal_edit::Authority;
use saffrodex::goal_edit::EditGoalError;
use saffrodex::goal_edit::GoalReading;
use saffrodex::goal_edit::UpdateOutcome;
use saffrodex::goal_supervisor::actions::begin_retry;
use saffrodex::goal_supervisor::actions::commit_snooze;
use saffrodex::goal_supervisor::actions::completed_goal_event;
use saffrodex::goal_supervisor::actions::keep_retry;
use saffrodex::goal_supervisor::actions::notification_text;
use saffrodex::goal_supervisor::actions::select_followup;
use saffrodex::goal_supervisor::actions::settle_action;
use saffrodex::goal_supervisor::failure::blocked_goal_events;
use saffrodex::goal_supervisor::failure::FailureRecord;
use saffrodex::goal_supervisor::failure::SupervisorEvent;
use saffrodex::goal_supervisor::failure::TerminalFailure;
use saffrodex::goal_supervisor::failure::TurnError;
use saffrodex::goal_supervisor::history::preserves_fork_item;
use saffrodex::goal_supervisor::history::RolloutItemKind;
use saffrodex::goal_supervisor::identity::helper_source;
use saffrodex::goal_supervisor::identity::is_helper_session;
use saffrodex::goal_supervisor::identity::is_helper_source;
use saffrodex::goal_supervisor::identity::parent_thread_for_helper;
use saffrodex::goal_supervisor::identity::HELPER_ROLE_NAME;
use saffrodex::goal_supervisor::prompt::checkin_assignment;
use saffrodex::goal_supervisor::prompt::continuity_text;
use saffrodex::goal_supervisor::prompt::helper_instructions;
use saffrodex::goal_supervisor::prompt::render_assignment;
use saffrodex::goal_supervisor::runtime::failure_retry_delay;
use saffrodex::goal_supervisor::runtime::retry_warning;
use saffrodex::goal_supervisor::runtime::snooze_for_active_goal;
use saffrodex::goal_supervisor::runtime::undecided_description;
use saffrodex::goal_supervisor::runtime::Action;
use saffrodex::goal_supervisor::runtime::CheckinStep;
use saffrodex::goal_supervisor::runtime::EditError;
use saffrodex::goal_supervisor::runtime::HelperEnd;
use saffrodex::goal_supervisor::runtime::IdleDisposition;
use saffrodex::goal_supervisor::runtime::IdleRetention;
use saffrodex::goal_supervisor::runtime::Runtime;
use saffrodex::goal_supervisor::runtime::SelectError;
use saffrodex::goal_supervisor::runtime::Snooze;
use saffrodex::goal_supervisor::runtime::MAX_FAILURE_RETRY_SECONDS;
use saffrodex::goals::ThreadGoal;
use saffrodex::goals::ThreadGoalRevision;
use saffrodex::goals::ThreadGoalStatus;
use saffrodex::ids::ThreadId;
use saffrodex::sources::SessionSource;
use saffrodex::sources::SubAgentSource;
use saffrodex::storage::GoalWake;

const PARENT: ThreadId = ThreadId { value: 1 };
const HELPER: ThreadId = ThreadId { value: 2 };
const NOW: Moment = Moment { nanos: 5_000_000_000 };

fn supervised_goal() -> ThreadGoal {
    ThreadGoal {
        thread_id: PARENT,
        goal_id: "goal-id".to_string(),
        objective: "goal objective".to_string(),
        status: ThreadGoalStatus::Active,
        token_budget: None,
        tokens_used: 12,
        time_used_seconds: 34,
        created_at_ms: 1_500,
        updated_at_ms: 2_500,
    }
}

fn supervising() -> Runtime {
    let goal = supervised_goal();
    let mut runtime = Runtime::new();
    assert!(matches!(
        runtime.start_checkin(false, false, false, &goal, NOW),
        CheckinStep::Spawn { retire: None }
    ));
    runtime.helper_started(HELPER, &goal);
    runtime
}

fn pending_snooze(idle_retention: IdleRetention) -> Snooze {
    Snooze {
        wake: GoalWake {
            thread_id: PARENT,
            goal_id: "goal-id".to_string(),
            goal_objective: "goal objective".to_string(),
            goal_updated_at_ms: 1,
            wake_at_ms: 2,
        },
        deadline: Moment { nanos: NOW.nanos + 30 * 24 * 60 * 60 * 1_000_000_000 },
        idle_retention,
    }
}

#[test]
fn helper_identity_requires_the_private_role() {
    let spawned = |path: &str, role: &str| {
        SessionSource::SubAgent(SubAgentSource::ThreadSpawn {
            parent_thread_id: PARENT,
            depth: 1,
            agent_path: Some(path.to_string()),
            agent_nickname: None,
            agent_role: Some(role.to_string()),
        })
    };
    let helper = spawned("/root/goal_supervisor", HELPER_ROLE_NAME);
    let ordinary_agent = spawned("/root/researcher", "researcher");

    assert_eq!(
        [
            is_helper_source(&helper),
            is_helper_source(&ordinary_agent),
            is_helper_source(&SessionSource::Cli),
        ],
        [true, false, false]
    );
    assert_eq!(parent_thread_for_helper(&helper), Ok(PARENT));
    let refusal = "supervisor tools are available only in a Saffron supervisor helper";
    assert_eq!(parent_thread_for_helper(&ordinary_agent), Err(refusal));
    assert_eq!(parent_thread_for_helper(&SessionSource::Cli), Err(refusal));
    assert!(is_helper_session(&helper_source(PARENT, 1), true));
    assert!(!is_helper_session(&helper_source(PARENT, 1), false));
}

#[test]
fn failure_retry_is_exponential_and_capped() {
    assert_eq!(failure_retry_delay(1), 60);
    assert_eq!(failure_retry_delay(2), 120);
    assert_eq!(failure_retry_delay(7), MAX_FAILURE_RETRY_SECONDS);
    assert_eq!(failure_retry_delay(u32::MAX), MAX_FAILURE_RETRY_SECONDS);
    assert_eq!(failure_retry_delay(0), 60);
    assert_eq!(failure_retry_delay(6), 1_920);
}

#[test]
fn only_process_local_wake_requires_idle_retention() {
    let mut runtime = Runtime::new();
    assert_eq!(runtime.idle_disposition(), IdleDisposition::Quiescent);

    runtime.set_snooze(pending_snooze(IdleRetention::Required));
    assert_eq!(runtime.idle_disposition(), IdleDisposition::ProcessLocalWork);

    runtime.set_snooze(pending_snooze(IdleRetention::Required).reconstructible());
    assert_eq!(
        runtime.idle_disposition(),
        IdleDisposition::ReconstructibleSnooze
    );

    assert_eq!(supervising().idle_disposition(), IdleDisposition::ProcessLocalWork);
}

#[test]
fn each_checkin_prompt_includes_its_current_time() {
    let parent_id =
        ThreadId::from_text("018f0000-0000-7000-8000-000000000001").expect("thread id");
    let objective = "Release when CI becomes green.";
    let continuity =
        r#"{"goal_updated_at":1787288448,"previous_action":{"snooze":{"delay_seconds":1477}}}"#;
    // 2026-08-21T05:00:48Z and 2026-08-21T05:25:25Z.
    let first_checkin_time = 1_787_288_448;
    let next_checkin_time = 1_787_289_925;

    let prompts = [
        render_assignment(parent_id, first_checkin_time, objective, continuity).unwrap(),
        render_assignment(parent_id, next_checkin_time, objective, continuity).unwrap(),
    ];

    assert_eq!(
        prompts,
        [
            "# Supervisor Check-in\n\nCurrent UTC time: 2026-08-21 05:00:48 UTC\n\nParent thread: 018f0000-0000-7000-8000-000000000001\n\nActive goal:\nRelease when CI becomes green.\n\nContinuity:\n{\"goal_updated_at\":1787288448,\"previous_action\":{\"snooze\":{\"delay_seconds\":1477}}}"
                .to_string(),
            "# Supervisor Check-in\n\nCurrent UTC time: 2026-08-21 05:25:25 UTC\n\nParent thread: 018f0000-0000-7000-8000-000000000001\n\nActive goal:\nRelease when CI becomes green.\n\nContinuity:\n{\"goal_updated_at\":1787288448,\"previous_action\":{\"snooze\":{\"delay_seconds\":1477}}}"
                .to_string(),
        ]
    );
}

#[test]
fn long_objectives_stand_behind_the_current_time() {
    let objective = "long objective ".repeat(2_000);
    let prompt = render_assignment(PARENT, 1_787_289_925, &objective, "{}").unwrap();
    assert!(
        prompt.starts_with("# Supervisor Check-in\n\nCurrent UTC time: 2026-08-21 05:25:25 UTC")
    );
    assert_eq!(
        prompt,
        checkin_assignment(PARENT, "2026-08-21 05:25:25 UTC", &objective, "{}")
    );
    assert!(render_assignment(PARENT, i64::MAX, "o", "{}").is_none());
}

#[test]
fn helpers_are_told_of_the_past_as_json() {
    let goal = supervised_goal();
    let parsed = |action, failures| -> serde_json::Value {
        continuity_text(&goal, action, failures).parse().unwrap()
    };
    assert_eq!(
        parsed(Some(Action::Snooze { delay_seconds: 1477 }), 3),
        r#"{"goal_created_at":1,"goal_updated_at":2,"tokens_used":12,"time_used_seconds":34,
            "previous_action":{"snooze":{"delay_seconds":1477}},"consecutive_failures":3}"#
            .parse::<serde_json::Value>()
            .unwrap()
    );
    for (action, expected) in [
        (Some(Action::Followup), serde_json::Value::from("followup")),
        (Some(Action::Compact), serde_json::Value::from("compact")),
        (Some(Action::Complete), serde_json::Value::from("complete")),
        (None, serde_json::Value::Null),
    ] {
        assert_eq!(parsed(action, 0).get("previous_action"), Some(&expected));
    }
}

#[test]
fn helper_instructions_follow_those_of_the_parent() {
    let alone = helper_instructions(None);
    assert!(alone.starts_with("# Saffron Goal Supervisor\n\nYou are a short-lived"));
    assert!(alone.ends_with("After the action returns, end your turn.\n"));
    assert_eq!(helper_instructions(Some("Be brief.")), format!("Be brief.\n\n{alone}"));
}

#[test]
fn checkins_leave_subagents_and_busy_parents_alone() {
    let goal = supervised_goal();
    let mut runtime = Runtime::new();
    assert!(matches!(
        runtime.start_checkin(true, false, false, &goal, NOW),
        CheckinStep::NotRoot
    ));
    assert!(matches!(
        runtime.start_checkin(false, true, false, &goal, NOW),
        CheckinStep::Busy
    ));
    assert_eq!(runtime.active_helper(), None);
}

#[test]
fn a_goal_has_one_helper() {
    let goal = supervised_goal();
    let mut runtime = supervising();
    assert_eq!(runtime.active_helper(), Some(HELPER));
    assert!(matches!(
        runtime.start_checkin(false, false, true, &goal, NOW),
        CheckinStep::AlreadySupervised
    ));
    assert!(matches!(
        runtime.start_checkin(false, false, false, &goal, NOW),
        CheckinStep::Spawn { retire: Some(HELPER) }
    ));
    let mut runtime = supervising();
    let mut other = goal.clone();
    other.goal_id = "other".to_string();
    assert!(matches!(
        runtime.start_checkin(false, false, true, &other, NOW),
        CheckinStep::Spawn { retire: Some(HELPER) }
    ));
}

#[test]
fn snoozed_goals_wait_until_they_change() {
    let mut runtime = supervising();
    let goal = supervised_goal();
    let goal_id = runtime.select_action(HELPER, Action::Snooze { delay_seconds: 60 }).unwrap();
    assert_eq!(goal_id, "goal-id");
    let snooze = snooze_for_active_goal(Some(&goal), &goal_id, 60, 10_000, NOW)
        .unwrap()
        .reconstructible();
    assert_eq!(snooze.wake.wake_at_ms, 70_000);
    assert_eq!(snooze.deadline.nanos, NOW.nanos + 60_000_000_000);
    let generation = commit_snooze(&mut runtime, &snooze, 60);
    assert_eq!(runtime.previous_action(), Some(Action::Snooze { delay_seconds: 60 }));
    assert_eq!(runtime.finish_helper(HELPER, None), HelperEnd::Settled);

    let waiting = match runtime.start_checkin(false, false, false, &goal, NOW) {
        CheckinStep::Wait { retire: None, snooze: waiting, generation: later } => {
            assert!(waiting.wake.same_as(&snooze.wake));
            later
        }
        other => panic!("{other:?}"),
    };
    // The wake that was scheduled first is obsolete.
    assert!(!runtime.wake_due(generation, &snooze.wake));
    assert!(runtime.wake_due(waiting, &snooze.wake));
    assert!(!runtime.wake_due(waiting, &snooze.wake));

    runtime.set_snooze(snooze.clone());
    let mut edited = goal.clone();
    edited.objective = "edited".to_string();
    assert!(matches!(
        runtime.start_checkin(false, false, false, &edited, NOW),
        CheckinStep::Spawn { retire: None }
    ));
    runtime.set_snooze(snooze);
    let later = Moment { nanos: NOW.nanos + 60_000_000_000 };
    assert!(matches!(
        runtime.start_checkin(false, false, false, &goal, later),
        CheckinStep::Spawn { retire: None }
    ));
}

#[test]
fn only_the_active_goal_is_snoozed() {
    let goal = supervised_goal();
    let refusal = "the active goal changed before it could be snoozed";
    assert_eq!(snooze_for_active_goal(None, "goal-id", 1, 0, NOW).unwrap_err(), refusal);
    assert_eq!(snooze_for_active_goal(Some(&goal), "other", 1, 0, NOW).unwrap_err(), refusal);
    let mut paused = goal.clone();
    paused.status = ThreadGoalStatus::Paused;
    assert_eq!(snooze_for_active_goal(Some(&paused), "goal-id", 1, 0, NOW).unwrap_err(), refusal);
    let far = snooze_for_active_goal(Some(&goal), "goal-id", u64::MAX, 5, NOW).unwrap();
    assert_eq!(far.wake.wake_at_ms, i64::MAX);
    assert_eq!(far.idle_retention, IdleRetention::Required);
}

#[test]
fn a_helper_selects_one_action() {
    let mut runtime = supervising();
    let stranger = ThreadId { value: 9 };
    assert_eq!(
        runtime.select_action(stranger, Action::Compact).unwrap_err(),
        SelectError::NotActive
    );
    assert_eq!(select_followup(&mut runtime, HELPER, "  go on \n").unwrap(), "go on");
    let error = runtime.select_action(HELPER, Action::Compact).unwrap_err();
    assert_eq!(error, SelectError::AlreadySelected);
    assert_eq!(
        error.message(),
        "a supervisor action was already selected for this check-in"
    );
    assert_eq!(
        runtime.begin_goal_edit(HELPER).unwrap_err(),
        EditError::DispositionSelected
    );
    settle_action(&mut runtime, HELPER, Action::Followup, false);
    assert_eq!(runtime.previous_action(), None);
    assert!(runtime.select_action(HELPER, Action::Complete).is_ok());
    settle_action(&mut runtime, HELPER, Action::Complete, true);
    assert_eq!(runtime.previous_action(), Some(Action::Complete));
    assert_eq!(
        select_followup(&mut runtime, HELPER, " \t").unwrap_err().message(),
        "message must not be empty"
    );
    assert_eq!(notification_text(" done "), Some("done".to_string()));
    assert_eq!(notification_text(" "), None);
}

#[test]
fn a_helper_edits_the_goal_once() {
    let mut runtime = supervising();
    let revision = supervisor_edit_target(&mut runtime, HELPER).unwrap();
    assert!(revision.is_current(&supervised_goal()));
    assert_eq!(
        runtime.select_action(HELPER, Action::Compact).unwrap_err(),
        SelectError::EditInFlight
    );
    assert_eq!(
        supervisor_edit_target(&mut runtime, HELPER).unwrap_err().message(),
        "a supervisor goal edit is already in progress"
    );
    let stale = conclude_edit(
        Authority::Supervisor,
        &mut runtime,
        HELPER,
        UpdateOutcome::Stale,
        "call",
        PARENT,
        "turn",
    );
    assert_eq!(
        stale.unwrap_err().message(),
        "the active goal changed before its objective could be edited"
    );
    runtime.begin_goal_edit(HELPER).unwrap();
    let updated = conclude_edit(
        Authority::Supervisor,
        &mut runtime,
        HELPER,
        UpdateOutcome::Updated { goal: supervised_goal() },
        "call",
        PARENT,
        "turn",
    )
    .unwrap();
    match updated {
        SupervisorEvent::GoalUpdated { id, thread_id, turn_id, goal } => {
            assert_eq!(id, "saffron-edit-goal-call");
            assert_eq!(thread_id, PARENT);
            assert_eq!(turn_id, None);
            assert_eq!(goal.objective, "goal objective");
        }
        other => panic!("{other:?}"),
    }
    let again = runtime.begin_goal_edit(HELPER).unwrap_err();
    assert_eq!(
        again.message(),
        "the active goal was already edited during this check-in"
    );
    assert!(runtime.select_action(HELPER, Action::Compact).is_ok());
}

#[test]
fn a_root_edits_its_active_goal() {
    let goal = supervised_goal();
    let reading = GoalReading::Read { goal: Some(goal.clone()) };
    let revision = root_edit_target(&SessionSource::Cli, &reading).unwrap();
    assert_eq!(revision.goal_id(), ThreadGoalRevision::capture(&goal).goal_id());
    let refusal = |source: SessionSource, reading: GoalReading| {
        root_edit_target(&source, &reading).unwrap_err().message()
    };
    assert_eq!(
        refusal(SessionSource::SubAgent(SubAgentSource::Review), reading),
        "only a root thread may edit its active goal"
    );
    assert_eq!(
        refusal(SessionSource::Cli, GoalReading::Unavailable),
        "goal state is unavailable"
    );
    assert_eq!(
        refusal(SessionSource::Cli, GoalReading::Failed { error: "locked".to_string() }),
        "failed to read the active goal: locked"
    );
    assert_eq!(
        refusal(SessionSource::Cli, GoalReading::Read { goal: None }),
        "there is no active goal to edit"
    );
    let mut runtime = Runtime::new();
    let updated = conclude_edit(
        Authority::Root,
        &mut runtime,
        PARENT,
        UpdateOutcome::Updated { goal },
        "call",
        PARENT,
        "turn",
    );
    assert!(matches!(
        updated,
        Ok(SupervisorEvent::GoalUpdated { turn_id: Some(turn), .. }) if turn == "turn"
    ));
    for (outcome, expected) in [
        (UpdateOutcome::Unavailable, "goal state is unavailable"),
        (
            UpdateOutcome::Failed { error: "disk full".to_string() },
            "failed to edit the active goal: disk full",
        ),
    ] {
        let error =
            conclude_edit(Authority::Root, &mut runtime, PARENT, outcome, "call", PARENT, "turn")
                .unwrap_err();
        assert_eq!(error.message(), expected);
    }
    assert_eq!(
        EditGoalError::UnsupportedPayload.message(),
        "goal edit received an unsupported payload"
    );
}

#[test]
fn undecided_helpers_are_retried() {
    let mut runtime = supervising();
    assert_eq!(
        runtime.finish_helper(ThreadId { value: 9 }, None),
        HelperEnd::Ignored
    );
    assert_eq!(runtime.finish_helper(HELPER, None), HelperEnd::Failed);
    assert_eq!(runtime.finish_helper(HELPER, None), HelperEnd::Ignored);
    assert_eq!(runtime.count_failure(), 60);
    assert_eq!(runtime.count_failure(), 120);
    assert_eq!(runtime.consecutive_failures(), 2);
    runtime.commit_action(Action::Compact);
    assert_eq!(runtime.consecutive_failures(), 0);
    assert_eq!(
        retry_warning(&undecided_description("Completed(None)"), 120),
        "Saffron goal supervisor failed: helper ended as Completed(None) without selecting an action. Retrying in 120s."
    );
}

#[test]
fn failed_checkins_wait_before_they_are_retried() {
    let mut runtime = supervising();
    let goal = supervised_goal();
    let obsolete = runtime.schedule_wake();
    assert_eq!(runtime.finish_helper(HELPER, None), HelperEnd::Failed);
    let (delay_seconds, warning) = begin_retry(&mut runtime, PARENT, "no answer");
    assert_eq!((delay_seconds, runtime.consecutive_failures()), (60, 1));
    assert!(matches!(
        warning,
        SupervisorEvent::Warning { id, message }
            if id == "saffron-supervisor-retry-00000000-0000-0000-0000-000000000001"
                && message == "Saffron goal supervisor failed: no answer. Retrying in 60s."
    ));
    let snooze = snooze_for_active_goal(Some(&goal), "goal-id", 60, 10_000, NOW).unwrap();
    let generation = keep_retry(&mut runtime, &snooze);
    assert_eq!(generation, obsolete + 1);
    assert_eq!(runtime.idle_disposition(), IdleDisposition::ProcessLocalWork);
    assert!(!runtime.wake_due(obsolete, &snooze.wake));

    let before = Moment { nanos: NOW.nanos + 59_999_999_999 };
    assert!(matches!(
        runtime.start_checkin(false, false, false, &goal, before),
        CheckinStep::Wait { retire: None, generation: later, .. } if later == generation + 1
    ));
    let due = Moment { nanos: NOW.nanos + 60_000_000_000 };
    assert!(matches!(
        runtime.start_checkin(false, false, false, &goal, due),
        CheckinStep::Spawn { retire: None }
    ));
}

#[test]
fn invalid_requests_block_the_goal() {
    let mut record = FailureRecord::new();
    let invalid = TurnError::InvalidRequest {
        message: "this model requires a newer Codex version".to_string(),
    };
    record.record_turn_error(&SessionSource::Cli, &invalid);
    assert!(record.terminal_failure().is_none());
    record.record_turn_error(&helper_source(PARENT, 1), &TurnError::Other);
    assert!(record.terminal_failure().is_none());
    record.record_turn_error(&helper_source(PARENT, 1), &invalid);
    let failure = record.terminal_failure().expect("the failure was retained");

    let mut runtime = supervising();
    assert_eq!(runtime.finish_helper(HELPER, Some(failure)), HelperEnd::Blocked);
    let mut runtime = supervising();
    runtime.select_action(HELPER, Action::Compact).unwrap();
    assert_eq!(runtime.finish_helper(HELPER, Some(failure)), HelperEnd::Settled);

    let mut blocked = supervised_goal();
    blocked.status = ThreadGoalStatus::Blocked;
    let (update, warning) = blocked_goal_events(PARENT, Some(blocked), failure).unwrap();
    assert!(matches!(
        update,
        SupervisorEvent::GoalUpdated { id, goal, .. }
            if id == "saffron-supervisor-blocked-00000000-0000-0000-0000-000000000001"
                && goal.status == ThreadGoalStatus::Blocked
    ));
    assert!(matches!(
        warning,
        SupervisorEvent::Warning { id, message }
            if id == "saffron-supervisor-blocked-warning-00000000-0000-0000-0000-000000000001"
                && message == "Saffron goal supervisor blocked the active goal: this model requires a newer Codex version"
    ));
    let failure = TerminalFailure::InvalidRequest { message: "x".to_string() };
    assert_eq!(
        blocked_goal_events(PARENT, None, &failure).unwrap_err(),
        "the active goal changed before it could be blocked"
    );
}

#[test]
fn completed_goals_are_told_of() {
    assert_eq!(
        completed_goal_event(PARENT, None).unwrap_err(),
        "the active goal changed before it could be completed"
    );
    assert!(matches!(
        completed_goal_event(PARENT, Some(supervised_goal())),
        Ok(SupervisorEvent::GoalUpdated { id, turn_id: None, .. })
            if id == "saffron-supervisor-complete-00000000-0000-0000-0000-000000000001"
    ));
}

#[test]
fn stopping_forgets_everything() {
    let mut runtime = supervising();
    runtime.set_snooze(pending_snooze(IdleRetention::Required));
    let generation = runtime.schedule_wake();
    assert_eq!(runtime.stop(), Some(HELPER));
    assert_eq!(runtime.idle_disposition(), IdleDisposition::Quiescent);
    assert!(!runtime.wake_due(generation, &pending_snooze(IdleRetention::Required).wake));
    assert_eq!(runtime.stop(), None);
}

#[test]
fn helpers_inherit_the_evidence() {
    let helper = helper_source(PARENT, 1);
    assert!(preserves_fork_item(&helper, RolloutItemKind::ResponseItem));
    assert!(preserves_fork_item(&helper, RolloutItemKind::InterAgentCommunication));
    assert!(preserves_fork_item(&helper, RolloutItemKind::InterAgentCommunicationMetadata));
    assert!(!preserves_fork_item(&helper, RolloutItemKind::TurnContext));
    assert!(!preserves_fork_item(&SessionSource::Cli, RolloutItemKind::ResponseItem));
}
