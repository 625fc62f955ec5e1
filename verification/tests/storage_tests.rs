use saffrodex::goal_supervisor::actions::clear_snooze_for_goal;
use saffrodex::ids::ThreadId;
use saffrodex::storage::continuity_row;
use saffrodex::storage::goal_supervisor_continuity_from_row;
use saffrodex::storage::notify_wake_changed;
use saffrodex::storage::ContinuityRow;
use saffrodex::storage::GoalSupervisorAction;
use saffrodex::storage::GoalSupervisorContinuity;
use saffrodex::storage::GoalWake;
use saffrodex::storage::SaffronStore;
use saffrodex::storage::StorageError;

const THREAD: ThreadId = ThreadId { value: 5 };

fn wake(goal_id: &str, objective: &str, updated: i64, at: i64) -> GoalWake {
    GoalWake {
        thread_id: THREAD,
        goal_id: goal_id.to_string(),
        goal_objective: objective.to_string(),
        goal_updated_at_ms: updated,
        wake_at_ms: at,
    }
}

fn continuity(goal_id: &str, action: GoalSupervisorAction) -> GoalSupervisorContinuity {
    GoalSupervisorContinuity {
        thread_id: THREAD,
        goal_id: goal_id.to_string(),
        action,
        action_at_ms: 42,
    }
}

fn row(kind: &str, delay: Option<i64>, reason: Option<&str>) -> ContinuityRow {
    ContinuityRow {
        thread_id: THREAD.to_text(),
        goal_id: "goal".to_string(),
        action_kind: kind.to_string(),
        action_at_ms: 42,
        snooze_delay_seconds: delay,
        snooze_reason: reason.map(str::to_string),
    }
}

#[test]
fn replacement_and_conditional_cleanup_preserve_the_newest_wake() {
    let mut store = SaffronStore::new(0);
    let old = wake("old-goal", "old objective", 10, 100);
    let replacement = wake("new-goal", "new objective", 20, 200);

    store.set_goal_wake(&old);
    store.set_goal_wake(&replacement);

    assert!(!store.clear_goal_wake(&old));
    assert!(store.get_goal_wake(THREAD).unwrap().same_as(&replacement));
    assert!(store.clear_goal_wake(&replacement));
    assert!(store.get_goal_wake(THREAD).is_none());
}

#[test]
fn schedulers_are_told_of_changed_wakes_only() {
    let mut store = SaffronStore::new(u64::MAX);
    let first = wake("goal", "objective", 10, 100);
    store.load_goal_wake(first.clone());
    assert_eq!(store.generation(), u64::MAX);
    store.set_goal_wake(&first);
    assert_eq!(store.generation(), 0);
    assert!(!store.clear_goal_wake(&wake("goal", "objective", 10, 101)));
    assert_eq!(store.generation(), 0);
    assert!(store.clear_goal_wake(&first));
    assert_eq!(store.generation(), 1);
    let mut generation = 7;
    notify_wake_changed(&mut generation);
    assert_eq!(generation, 8);
}

#[test]
fn only_the_wake_of_the_goal_is_cleared() {
    let mut store = SaffronStore::new(0);
    store.set_goal_wake(&wake("goal", "objective", 10, 100));
    clear_snooze_for_goal(&mut store, THREAD, "other-goal");
    assert!(store.get_goal_wake(THREAD).is_some());
    clear_snooze_for_goal(&mut store, THREAD, "goal");
    assert!(store.get_goal_wake(THREAD).is_none());
}

#[test]
fn continuity_is_read_as_it_was_written() {
    for action in [
        GoalSupervisorAction::Followup,
        GoalSupervisorAction::Snooze { delay_seconds: 300, reason: "CI".to_string() },
        GoalSupervisorAction::Compact,
    ] {
        let written = continuity("goal", action.clone());
        let read = goal_supervisor_continuity_from_row(&continuity_row(&written).unwrap()).unwrap();
        assert_eq!(read.thread_id, THREAD);
        assert_eq!(read.goal_id, "goal");
        assert_eq!(read.action_at_ms, 42);
        assert_eq!(read.action.kind(), action.kind());
        match (read.action, action) {
            (
                GoalSupervisorAction::Snooze { delay_seconds: a, reason: b },
                GoalSupervisorAction::Snooze { delay_seconds: c, reason: d },
            ) => assert_eq!((a, b), (c, d)),
            (_, GoalSupervisorAction::Snooze { .. }) => panic!("the snooze was lost"),
            _ => {}
        }
    }
}

#[test]
fn rows_that_fit_no_action_are_errors() {
    let refused = |row: ContinuityRow| goal_supervisor_continuity_from_row(&row).unwrap_err();
    assert_eq!(refused(row("close", None, None)), StorageError::InvalidContinuityRow);
    assert_eq!(refused(row("followup", Some(1), None)), StorageError::InvalidContinuityRow);
    assert_eq!(refused(row("snooze", None, Some("x"))), StorageError::InvalidContinuityRow);
    assert_eq!(refused(row("compact", Some(1), Some("x"))), StorageError::InvalidContinuityRow);
    assert_eq!(refused(row("snooze", Some(-1), Some("x"))), StorageError::DelayOutOfRange);
    let mut unknown = row("followup", None, None);
    unknown.thread_id = "thread".to_string();
    assert_eq!(refused(unknown), StorageError::InvalidThreadId);
    let too_long =
        GoalSupervisorAction::Snooze { delay_seconds: u64::MAX, reason: "x".to_string() };
    assert_eq!(
        continuity_row(&continuity("goal", too_long)).unwrap_err(),
        StorageError::DelayOutOfRange
    );
    assert_eq!(
        StorageError::DelayOutOfRange.message(),
        i64::try_from(u64::MAX).unwrap_err().to_string()
    );
    assert_eq!(
        StorageError::InvalidContinuityRow.message(),
        "invalid goal supervisor continuity row"
    );
}

#[test]
fn continuity_belongs_to_the_present_goal() {
    let mut store = SaffronStore::new(0);
    store
        .set_goal_supervisor_continuity(&continuity("old", GoalSupervisorAction::Compact))
        .unwrap();
    assert!(store.stored_continuity_row(THREAD).is_some());
    assert!(!store.clear_goal_supervisor_continuity_for_goal(THREAD, "new"));
    assert_eq!(
        store
            .reconcile_goal_supervisor_continuity(THREAD, "old")
            .unwrap()
            .map(|kept| kept.goal_id),
        Some("old".to_string())
    );
    assert!(store.reconcile_goal_supervisor_continuity(THREAD, "new").unwrap().is_none());
    assert!(store.stored_continuity_row(THREAD).is_none());

    store.load_continuity_row(THREAD, row("close", None, None));
    assert_eq!(
        store.reconcile_goal_supervisor_continuity(THREAD, "goal").unwrap_err(),
        StorageError::InvalidContinuityRow
    );
    assert!(store.clear_goal_supervisor_continuity_for_goal(THREAD, "goal"));
    assert!(!store.clear_goal_supervisor_continuity(THREAD));
    store
        .set_goal_supervisor_continuity(&continuity("new", GoalSupervisorAction::Followup))
        .unwrap();
    assert!(store.clear_goal_supervisor_continuity(THREAD));
}

#[test]
fn threads_keep_wakes_of_their_own() {
    let mut store = SaffronStore::new(0);
    let other = GoalWake { thread_id: ThreadId { value: 6 }, ..wake("other", "theirs", 1, 2) };
    let own = wake("goal", "objective", 10, 100);
    store.set_goal_wake(&other);
    store.set_goal_wake(&own);
    assert!(store.get_goal_wake(THREAD).unwrap().same_as(&own));
    assert!(store.get_goal_wake(other.thread_id).unwrap().same_as(&other));
    assert!(store.clear_goal_wake(&own));
    assert!(store.get_goal_wake(THREAD).is_none());
    assert!(store.get_goal_wake(other.thread_id).unwrap().same_as(&other));
}

#[test]
fn the_last_action_is_kept_for_its_goal() {
    let mut store = SaffronStore::new(0);
    let action = GoalSupervisorAction::Snooze { delay_seconds: 300, reason: "CI".to_string() };
    store.set_goal_supervisor_continuity(&continuity("goal", action)).unwrap();
    let kept = store.reconcile_goal_supervisor_continuity(THREAD, "goal").unwrap().unwrap();
    assert_eq!((kept.thread_id, kept.action_at_ms), (THREAD, 42));
    assert!(matches!(
        kept.action,
        GoalSupervisorAction::Snooze { delay_seconds: 300, reason } if reason == "CI"
    ));
}
