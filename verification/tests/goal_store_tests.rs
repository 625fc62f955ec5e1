use saffrodex::goal_resume::check_stopped;
use saffrodex::goal_resume::resume_goal;
use saffrodex::goal_resume::resume_request;
use saffrodex::goal_resume::resumed_goal_event;
use saffrodex::goal_resume::GoalResumeError;
use saffrodex::goal_resume::GoalResumeRequest;
use saffrodex::goal_supervisor::failure::SupervisorEvent;
use saffrodex::goal_store::GoalStore;
use saffrodex::goals::protocol_goal;
use saffrodex::goals::ThreadGoal;
use saffrodex::goals::ThreadGoalRevision;
use saffrodex::goals::ThreadGoalStatus;
use saffrodex::ids::ThreadId;

const THREAD: ThreadId = ThreadId { value: 77 };

fn new_goal(
    thread_id: ThreadId,
    goal_id: &str,
    objective: &str,
    status: ThreadGoalStatus,
    token_budget: Option<i64>,
    now_ms: i64,
) -> ThreadGoal {
    ThreadGoal {
        thread_id,
        goal_id: goal_id.to_string(),
        objective: objective.to_string(),
        status,
        token_budget,
        tokens_used: 0,
        time_used_seconds: 0,
        created_at_ms: now_ms,
        updated_at_ms: now_ms,
    }
}

#[test]
fn objective_update_preserves_the_active_goal() {
    let mut goals = GoalStore::new();
    let original = new_goal(
        THREAD,
        "goal",
        "ship the first version",
        ThreadGoalStatus::Active,
        Some(10_000),
        1_000,
    );
    goals.put_thread_goal(original.clone());
    let revision = ThreadGoalRevision::capture(&original);
    assert_eq!(revision.goal_id(), "goal");

    let updated = goals
        .update_active_thread_goal_objective(
            THREAD,
            &revision,
            "ship the first version with release notes",
        )
        .expect("captured goal should still be active");

    let mut expected = original.clone();
    expected.objective = "ship the first version with release notes".to_string();
    expected.updated_at_ms = updated.updated_at_ms;
    assert!(updated.same_as(&expected));
    assert!(updated.updated_at_ms > original.updated_at_ms);
    // The clock was read: this is long after the goal was made.
    assert!(updated.updated_at_ms > 1_600_000_000_000);
    assert!(goals.get_thread_goal(THREAD).unwrap().same_as(&updated));
}

#[test]
fn objective_update_rejects_stale_goal_state() {
    let mut goals = GoalStore::new();
    let original =
        new_goal(THREAD, "first", "original objective", ThreadGoalStatus::Active, None, 10);
    goals.put_thread_goal(original.clone());
    let revision = ThreadGoalRevision::capture(&original);
    // A user edit within the same millisecond.
    let mut user_goal = original.clone();
    user_goal.objective = "user-edited objective".to_string();
    goals.put_thread_goal(user_goal.clone());
    assert!(goals
        .update_active_thread_goal_objective(THREAD, &revision, "stale supervisor objective")
        .is_none());

    let revision = ThreadGoalRevision::capture(&user_goal);
    let mut paused = user_goal.clone();
    paused.status = ThreadGoalStatus::Paused;
    goals.put_thread_goal(paused.clone());
    assert!(goals
        .update_active_thread_goal_objective(THREAD, &revision, "ignore the pause")
        .is_none());
    let replaced =
        new_goal(THREAD, "second", "replacement objective", ThreadGoalStatus::Active, None, 20);
    goals.put_thread_goal(replaced.clone());
    let revision = ThreadGoalRevision::capture(&replaced);
    let replacement =
        new_goal(THREAD, "third", "new replacement objective", ThreadGoalStatus::Active, None, 20);
    goals.put_thread_goal(replacement.clone());
    assert!(goals
        .update_active_thread_goal_objective(THREAD, &revision, "stale supervisor objective")
        .is_none());
    assert!(goals.get_thread_goal(THREAD).unwrap().same_as(&replacement));
    assert!(goals
        .update_active_thread_goal_objective(ThreadId { value: 1 }, &revision, "no such thread")
        .is_none());
}

#[test]
fn resume_preserves_each_supported_stopped_goal() {
    for status in [
        ThreadGoalStatus::Paused,
        ThreadGoalStatus::Blocked,
        ThreadGoalStatus::UsageLimited,
    ] {
        let mut goals = GoalStore::new();
        let mut original =
            new_goal(THREAD, "goal", "finish the release", status, Some(10_000), 1_000);
        original.tokens_used = 300;
        original.time_used_seconds = 7;
        goals.put_thread_goal(original.clone());

        let resumed = goals
            .resume_thread_goal(&original)
            .expect("supported stopped goal should resume");

        let mut expected = original.clone();
        expected.status = ThreadGoalStatus::Active;
        expected.updated_at_ms = resumed.updated_at_ms;
        assert!(resumed.same_as(&expected));
        assert!(resumed.updated_at_ms > original.updated_at_ms);
        assert!(goals.resume_thread_goal(&original).is_none());
        assert!(goals.resume_thread_goal(&resumed).is_none());
    }
}

#[test]
fn resume_rejects_a_stale_goal_snapshot() {
    let mut goals = GoalStore::new();
    let original = new_goal(
        THREAD,
        "goal",
        "finish the release",
        ThreadGoalStatus::Paused,
        Some(10_000),
        1_000,
    );
    let mut edited = original.clone();
    edited.objective = "finish the release and announce it".to_string();
    goals.put_thread_goal(edited.clone());

    assert!(goals.resume_thread_goal(&original).is_none());
    assert!(goals.get_thread_goal(THREAD).unwrap().same_as(&edited));
}

#[test]
fn resume_rejects_unsupported_or_budget_exhausted_goals() {
    for status in [
        ThreadGoalStatus::Active,
        ThreadGoalStatus::BudgetLimited,
        ThreadGoalStatus::Complete,
    ] {
        let mut goals = GoalStore::new();
        let goal = new_goal(THREAD, "goal", "finish the release", status, None, 1_000);
        goals.put_thread_goal(goal.clone());
        assert!(goals.resume_thread_goal(&goal).is_none());
    }

    let mut goals = GoalStore::new();
    let mut exhausted = new_goal(
        THREAD,
        "goal",
        "finish the release",
        ThreadGoalStatus::BudgetLimited,
        Some(100),
        1_000,
    );
    exhausted.tokens_used = 100;
    goals.put_thread_goal(exhausted.clone());
    assert!(goals.resume_thread_goal(&exhausted).is_none());
    exhausted.status = ThreadGoalStatus::Paused;
    goals.put_thread_goal(exhausted.clone());
    assert!(goals.resume_thread_goal(&exhausted).is_none());
}

#[test]
fn changes_are_dated_after_the_change_before() {
    let mut goals = GoalStore::new();
    let goal = new_goal(THREAD, "goal", "a", ThreadGoalStatus::Active, None, 5_000);
    goals.put_thread_goal(goal.clone());
    let revision = ThreadGoalRevision::capture(&goal);
    let edited = goals
        .update_active_thread_goal_objective_at(THREAD, &revision, "b", 4_000)
        .unwrap();
    assert_eq!(edited.updated_at_ms, 5_001);
    assert!(goals
        .update_active_thread_goal_objective_at(THREAD, &revision, "c", 9_000)
        .is_none());
    let revision = ThreadGoalRevision::capture(&edited);
    assert!(revision.is_current(&edited));
    let edited = goals
        .update_active_thread_goal_objective_at(THREAD, &revision, "c", 9_000)
        .unwrap();
    assert_eq!(edited.updated_at_ms, 9_000);
}

#[test]
fn active_goals_are_listed_by_thread_after_a_cursor() {
    let mut goals = GoalStore::new();
    for value in [5_u128, 1, 4, 2, 3] {
        let status = if value == 4 { ThreadGoalStatus::Paused } else { ThreadGoalStatus::Active };
        goals.put_thread_goal(new_goal(ThreadId { value }, "g", "o", status, None, 1));
    }
    let listed = |cursor: Option<u128>, limit: usize| -> Vec<u128> {
        goals
            .list_active_thread_goals(cursor.map(|value| ThreadId { value }), limit)
            .iter()
            .map(|goal| goal.thread_id.value)
            .collect()
    };
    assert_eq!(listed(None, 10), vec![1, 2, 3, 5]);
    assert_eq!(listed(None, 2), vec![1, 2]);
    assert_eq!(listed(Some(2), 2), vec![3, 5]);
    assert_eq!(listed(Some(5), 2), Vec::<u128>::new());
    assert_eq!(listed(None, 0), Vec::<u128>::new());
}

#[test]
fn clients_are_shown_whole_seconds() {
    let mut goal = new_goal(THREAD, "goal", "o", ThreadGoalStatus::Blocked, Some(3), 1_999);
    goal.updated_at_ms = -1;
    let shown = protocol_goal(&goal);
    assert_eq!(shown.created_at, 1);
    assert_eq!(shown.updated_at, -1);
    assert_eq!(shown.status, ThreadGoalStatus::Blocked);
    assert_eq!(shown.token_budget, Some(3));
    assert_eq!(shown.thread_id, THREAD);
    assert_eq!(shown.objective, "o");
}

#[test]
fn statuses_have_stored_names() {
    for (status, name) in [
        (ThreadGoalStatus::Active, "active"),
        (ThreadGoalStatus::Paused, "paused"),
        (ThreadGoalStatus::Blocked, "blocked"),
        (ThreadGoalStatus::UsageLimited, "usage_limited"),
        (ThreadGoalStatus::BudgetLimited, "budget_limited"),
        (ThreadGoalStatus::Complete, "complete"),
    ] {
        assert_eq!(status.as_str(), name);
        assert_eq!(ThreadGoalStatus::from_name(name), Some(status));
    }
    assert_eq!(ThreadGoalStatus::from_name("Active"), None);
}

#[test]
fn each_refused_resumption_says_why() {
    let refusal = |goal: Option<ThreadGoal>| -> String {
        let mut goals = GoalStore::new();
        if let Some(goal) = goal {
            goals.put_thread_goal(goal);
        }
        resume_goal(&mut goals, THREAD, 2_000).unwrap_err().message()
    };
    let with_status = |status| Some(new_goal(THREAD, "goal", "o", status, Some(0), 1_000));
    assert_eq!(refusal(None), "there is no durable goal to resume");
    assert_eq!(
        refusal(with_status(ThreadGoalStatus::Active)),
        "the durable goal is already active"
    );
    assert_eq!(
        refusal(with_status(ThreadGoalStatus::BudgetLimited)),
        "the durable goal cannot resume because its token budget is exhausted"
    );
    assert_eq!(
        refusal(with_status(ThreadGoalStatus::Complete)),
        "the completed durable goal cannot be resumed; create a new goal instead"
    );
    assert_eq!(
        refusal(with_status(ThreadGoalStatus::Paused)),
        "the durable goal changed before it could be resumed"
    );
    assert_eq!(
        GoalResumeError::Internal("disk full".to_string()).message(),
        "failed to resume the durable goal: disk full"
    );
    assert!(check_stopped(with_status(ThreadGoalStatus::Blocked).as_ref()).is_ok());
}

#[test]
fn a_stopped_goal_is_resumed_for_its_root() {
    let mut goals = GoalStore::new();
    goals.put_thread_goal(new_goal(THREAD, "goal", "o", ThreadGoalStatus::Blocked, None, 1_000));
    let resumed = resume_goal(&mut goals, THREAD, 2_000).unwrap();
    assert_eq!(resumed.status, ThreadGoalStatus::Active);
    assert_eq!(resumed.updated_at_ms, 2_000);

    let GoalResumeRequest { event_id, turn_id } = resume_request(false, "call", "turn").unwrap();
    assert_eq!(event_id, "saffron-resume-goal-call");
    assert_eq!(turn_id.as_deref(), Some("turn"));
    let event = resumed_goal_event(GoalResumeRequest { event_id, turn_id }, THREAD, &resumed);
    assert!(matches!(
        event,
        SupervisorEvent::GoalUpdated { id, thread_id: THREAD, turn_id: Some(turn), goal }
            if id == "saffron-resume-goal-call"
                && turn == "turn"
                && goal.status == ThreadGoalStatus::Active
                && goal.updated_at == 2
    ));
    assert_eq!(
        resume_request(true, "call", "turn").unwrap_err(),
        "only a root thread may resume its durable goal"
    );
}
