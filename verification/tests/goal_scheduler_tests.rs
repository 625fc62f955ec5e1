use saffrodex::goal_scheduler::activation::next_retry_interval;
use saffrodex::goal_scheduler::activation::remaining_wait;
use saffrodex::goal_scheduler::activation::Activation;
use saffrodex::goal_scheduler::activation::ActivationAction;
use saffrodex::goal_scheduler::activation::ActivationEvent;
use saffrodex::goal_scheduler::activation::ActivationPhase;
use saffrodex::goal_scheduler::ownership::ownership_step;
use saffrodex::goal_scheduler::ownership::OwnershipAction;
use saffrodex::goal_scheduler::ownership::OwnershipEvent;
use saffrodex::goal_scheduler::ownership::Scheduler;
use saffrodex::goal_scheduler::schedule::current_schedule;
use saffrodex::goal_scheduler::schedule::scan_eligible_goals;
use saffrodex::goal_scheduler::schedule::schedule_is_eligible;
use saffrodex::goal_scheduler::schedule::GoalSchedule;
use saffrodex::goal_scheduler::schedule::GoalScan;
use saffrodex::goal_scheduler::schedule::ThreadDirectory;
use saffrodex::goal_scheduler::schedule::ThreadRecord;
use saffrodex::goal_scheduler::schedule::PAGE_SIZE;
use saffrodex::goal_store::GoalStore;
use saffrodex::goals::ThreadGoal;
use saffrodex::goals::ThreadGoalRevision;
use saffrodex::goals::ThreadGoalStatus;
use saffrodex::ids::ThreadId;
use saffrodex::sources::SessionSource;
use saffrodex::sources::SubAgentSource;
use saffrodex::sources::ThreadSource;
use saffrodex::storage::GoalWake;
use saffrodex::storage::SaffronStore;

fn active_goal(value: u128, objective: &str) -> ThreadGoal {
    ThreadGoal {
        thread_id: ThreadId { value },
        goal_id: format!("goal-{value}"),
        objective: objective.to_string(),
        status: ThreadGoalStatus::Active,
        token_budget: None,
        tokens_used: 0,
        time_used_seconds: 0,
        created_at_ms: 1_000,
        updated_at_ms: 1_000,
    }
}

fn wake_for(goal: &ThreadGoal, wake_at_ms: i64) -> GoalWake {
    GoalWake {
        thread_id: goal.thread_id,
        goal_id: goal.goal_id.clone(),
        goal_objective: goal.objective.clone(),
        goal_updated_at_ms: goal.updated_at_ms,
        wake_at_ms,
    }
}

fn root_record() -> ThreadRecord {
    ThreadRecord {
        continuation_deferred: false,
        archived: false,
        thread_source: Some(ThreadSource::User),
        source: Some(SessionSource::Cli),
    }
}

struct Fixture {
    goals: GoalStore,
    store: SaffronStore,
    threads: ThreadDirectory,
    goal: ThreadGoal,
}

fn active_goal_fixture(objective: &str) -> Fixture {
    let goal = active_goal(7, objective);
    let mut goals = GoalStore::new();
    goals.put_thread_goal(goal.clone());
    let mut threads = ThreadDirectory::new();
    threads.insert(goal.thread_id, root_record());
    Fixture { goals, store: SaffronStore::new(0), threads, goal }
}

#[test]
fn persisted_deadline_survives_restart_and_unrelated_wake_change() {
    let mut fixture = active_goal_fixture("wait despite another thread changing");
    let now_ms = 50_000;
    fixture.store.set_goal_wake(&wake_for(&fixture.goal, now_ms + 2_000));
    let found = scan_eligible_goals(&fixture.goals, &fixture.store, &fixture.threads);
    let mut scheduler = Scheduler::new();
    let changes = scheduler.reconcile(&found);
    assert_eq!(changes.started.len(), 1);
    let mut activation = Activation::new(changes.started[0].schedule.clone());
    assert_eq!(
        activation.advance(ActivationEvent::Tick { now_ms: now_ms + 100 }),
        ActivationAction::Sleep { wait_ms: 1_900 }
    );

    fixture.store.set_goal_wake(&GoalWake {
        thread_id: ThreadId { value: 9 },
        goal_id: "unrelated-goal".to_string(),
        goal_objective: "unrelated objective".to_string(),
        goal_updated_at_ms: 1,
        wake_at_ms: now_ms + 60_000,
    });
    let found = scan_eligible_goals(&fixture.goals, &fixture.store, &fixture.threads);
    let changes = scheduler.reconcile(&found);
    assert!(changes.started.is_empty() && changes.cancelled.is_empty());

    assert_eq!(
        activation.advance(ActivationEvent::Tick { now_ms: now_ms + 350 }),
        ActivationAction::Sleep { wait_ms: 1_650 },
        "an unrelated thread's wake change bypassed the persisted deadline"
    );
    assert_eq!(
        activation.advance(ActivationEvent::Tick { now_ms: now_ms + 2_000 }),
        ActivationAction::AcquirePermit
    );
}

#[test]
fn queued_activation_rejects_stale_schedule_after_capacity_is_available() {
    let mut fixture = active_goal_fixture("original objective");
    let original = GoalSchedule::from_goal(&fixture.goal, &fixture.store);
    let mut activation = Activation::new(original);
    assert_eq!(
        activation.advance(ActivationEvent::Tick { now_ms: 2_000 }),
        ActivationAction::AcquirePermit,
        "activation settled while all capacity was held"
    );

    let mut replacement = active_goal(7, "replacement objective");
    replacement.goal_id = "replacement".to_string();
    fixture.goals.put_thread_goal(replacement);

    assert_eq!(
        activation.advance(ActivationEvent::PermitAcquired),
        ActivationAction::Revalidate
    );
    let current = current_schedule(
        &fixture.goals,
        &fixture.store,
        &fixture.threads,
        activation.schedule().thread_id(),
    );
    assert!(current.is_some());
    assert_eq!(
        activation.advance(ActivationEvent::Revalidated { current }),
        ActivationAction::Finish,
        "queued activation used the stale pre-capacity schedule"
    );
}

#[test]
fn stale_goal_revision_does_not_inherit_persisted_deadline() {
    let mut fixture = active_goal_fixture("changed after snooze");
    let mut mismatching_wake = wake_for(&fixture.goal, 60_000);
    mismatching_wake.goal_objective = "newer objective in another database".to_string();
    fixture.store.set_goal_wake(&mismatching_wake);
    let found = scan_eligible_goals(&fixture.goals, &fixture.store, &fixture.threads);
    let schedule = &found.schedules()[0];
    assert_eq!(schedule.wake_at_millis(), None);
    assert_eq!(schedule.goal_id(), "goal-7");
    let mut activation = Activation::new(schedule.clone());
    assert_eq!(
        activation.advance(ActivationEvent::Tick { now_ms: 0 }),
        ActivationAction::AcquirePermit
    );
    assert!(fixture
        .store
        .get_goal_wake(fixture.goal.thread_id)
        .unwrap()
        .same_as(&mismatching_wake));
}

#[test]
fn only_known_root_threads_are_eligible() {
    assert!(schedule_is_eligible(Some(&root_record())));
    assert!(!schedule_is_eligible(None));
    let changed = |change: &dyn Fn(&mut ThreadRecord)| {
        let mut record = root_record();
        change(&mut record);
        schedule_is_eligible(Some(&record))
    };
    assert!(!changed(&|record| record.continuation_deferred = true));
    assert!(!changed(&|record| record.archived = true));
    assert!(!changed(&|record| record.thread_source = Some(ThreadSource::Subagent)));
    assert!(!changed(&|record| {
        record.source = Some(SessionSource::SubAgent(SubAgentSource::Review))
    }));
    assert!(changed(&|record| {
        record.thread_source = None;
        record.source = None;
    }));
}

#[test]
fn scans_read_every_page() {
    let mut goals = GoalStore::new();
    let mut threads = ThreadDirectory::new();
    let count = 2 * PAGE_SIZE as u128;
    for value in 0..count {
        goals.put_thread_goal(active_goal(value, "objective"));
        if value % 2 == 0 {
            threads.insert(ThreadId { value }, root_record());
        }
    }
    let store = SaffronStore::new(0);
    let found = scan_eligible_goals(&goals, &store, &threads);
    let ids: Vec<u128> =
        found.schedules().iter().map(|schedule| schedule.thread_id().value).collect();
    assert_eq!(ids, (0..count).step_by(2).collect::<Vec<u128>>());

    let mut scan = GoalScan::new();
    let first = goals.list_active_thread_goals(scan.cursor(), PAGE_SIZE);
    scan.accept_page(&first, &store, &threads);
    assert!(!scan.is_finished());
    assert_eq!(scan.cursor(), Some(ThreadId { value: PAGE_SIZE as u128 - 1 }));
    scan.accept_page(&vec![], &store, &threads);
    assert!(scan.is_finished());
    assert_eq!(scan.into_found().schedules().len(), PAGE_SIZE / 2);
}

#[test]
fn paused_and_archived_goals_are_not_scheduled() {
    let mut fixture = active_goal_fixture("pause before restart");
    let mut paused = fixture.goal.clone();
    paused.status = ThreadGoalStatus::Paused;
    fixture.goals.put_thread_goal(paused);
    assert!(scan_eligible_goals(&fixture.goals, &fixture.store, &fixture.threads)
        .schedules()
        .is_empty());
    assert!(current_schedule(
        &fixture.goals,
        &fixture.store,
        &fixture.threads,
        fixture.goal.thread_id
    )
    .is_none());
    let mut fixture = active_goal_fixture("archive before restart");
    let mut archived = root_record();
    archived.archived = true;
    fixture.threads.insert(fixture.goal.thread_id, archived);
    assert!(scan_eligible_goals(&fixture.goals, &fixture.store, &fixture.threads)
        .schedules()
        .is_empty());
}

#[test]
fn reconciliation_starts_keeps_and_cancels() {
    let mut goals = GoalStore::new();
    let mut threads = ThreadDirectory::new();
    let store = SaffronStore::new(0);
    for value in [1_u128, 2] {
        goals.put_thread_goal(active_goal(value, "first"));
        threads.insert(ThreadId { value }, root_record());
    }
    let mut scheduler = Scheduler::new();
    let changes = scheduler.reconcile(&scan_eligible_goals(&goals, &store, &threads));
    let started: Vec<u64> = changes.started.iter().map(|started| started.activation).collect();
    assert_eq!(started, vec![0, 1]);
    assert!(changes.cancelled.is_empty());

    // The goal of one thread is edited, and the other activation settles.
    scheduler.complete(&changes.started[1].schedule);
    let obsolete = changes.started[0].schedule.clone();
    goals.put_thread_goal(active_goal(1, "second"));
    let changes = scheduler.reconcile(&scan_eligible_goals(&goals, &store, &threads));
    assert_eq!(changes.cancelled, vec![0]);
    let started: Vec<(u128, u64)> = changes
        .started
        .iter()
        .map(|started| (started.schedule.thread_id().value, started.activation))
        .collect();
    assert_eq!(started, vec![(1, 2), (2, 3)]);

    // The end of the obsolete activation does not end the newer one.
    scheduler.complete(&obsolete);
    let changes = scheduler.reconcile(&scan_eligible_goals(&goals, &store, &threads));
    assert!(changes.started.is_empty() && changes.cancelled.is_empty());
    assert_eq!(scheduler.next_activation(), 4);
}

#[test]
fn failed_activations_are_retried_with_backoff() {
    let fixture = active_goal_fixture("retry");
    let schedule = GoalSchedule::from_goal(&fixture.goal, &fixture.store);
    let mut activation = Activation::new(schedule.clone());
    activation.advance(ActivationEvent::Tick { now_ms: 0 });
    let mut waits = Vec::new();
    for attempt in 0..6 {
        activation.advance(ActivationEvent::PermitAcquired);
        let action = if attempt % 2 == 0 {
            activation.advance(ActivationEvent::RevalidationFailed)
        } else {
            let current = Some(schedule.clone());
            assert_eq!(
                activation.advance(ActivationEvent::Revalidated { current }),
                ActivationAction::Activate
            );
            activation.advance(ActivationEvent::ActivationFailed)
        };
        match action {
            ActivationAction::Retry { wait_ms } => waits.push(wait_ms),
            other => panic!("{other:?}"),
        }
        assert_eq!(
            activation.advance(ActivationEvent::RetryElapsed),
            ActivationAction::AcquirePermit
        );
    }
    assert_eq!(waits, vec![30_000, 60_000, 120_000, 240_000, 300_000, 300_000]);
    assert_eq!(activation.advance(ActivationEvent::Cancelled), ActivationAction::Finish);
    assert_eq!(activation.phase(), ActivationPhase::Finished);
    assert_eq!(next_retry_interval(u64::MAX), 300_000);
}

#[test]
fn activations_end_when_activated_or_without_capacity() {
    let fixture = active_goal_fixture("end");
    let schedule = GoalSchedule::from_goal(&fixture.goal, &fixture.store);
    let mut activation = Activation::new(schedule.clone());
    activation.advance(ActivationEvent::Tick { now_ms: 0 });
    assert_eq!(activation.advance(ActivationEvent::PermitsClosed), ActivationAction::Finish);
    let mut activation = Activation::new(schedule.clone());
    activation.advance(ActivationEvent::Tick { now_ms: 0 });
    activation.advance(ActivationEvent::PermitAcquired);
    activation.advance(ActivationEvent::Revalidated { current: Some(schedule) });
    assert_eq!(activation.advance(ActivationEvent::Activated), ActivationAction::Finish);
}

#[test]
fn long_waits_are_looked_at_again() {
    assert_eq!(remaining_wait(None, 5), None);
    assert_eq!(remaining_wait(Some(5), 5), None);
    assert_eq!(remaining_wait(Some(6), 5), Some(1));
    assert_eq!(remaining_wait(Some(90_000), 5), Some(30_000));
    assert_eq!(remaining_wait(Some(i64::MAX), i64::MIN), Some(30_000));
    assert_eq!(remaining_wait(Some(i64::MIN), i64::MAX), None);
}

#[test]
fn one_process_owns_a_home() {
    let again = OwnershipAction::TryAgain { wait_ms: 30_000 };
    assert_eq!(ownership_step(OwnershipEvent::Acquired), OwnershipAction::OpenStore);
    assert_eq!(ownership_step(OwnershipEvent::StoreOpened), OwnershipAction::RunAsOwner);
    assert_eq!(ownership_step(OwnershipEvent::Busy), again);
    assert_eq!(ownership_step(OwnershipEvent::LockFailed), again);
    assert_eq!(ownership_step(OwnershipEvent::StoreFailed), again);
}

#[test]
fn edits_and_resumptions_outdate_wakes() {
    let mut fixture = active_goal_fixture("before");
    fixture.store.set_goal_wake(&wake_for(&fixture.goal, 90_000));
    let id = fixture.goal.thread_id;
    let scheduled =
        current_schedule(&fixture.goals, &fixture.store, &fixture.threads, id).unwrap();
    assert_eq!(scheduled.wake_at_millis(), Some(90_000));

    let expected = ThreadGoalRevision::capture(&fixture.goal);
    fixture
        .goals
        .update_active_thread_goal_objective_at(id, &expected, "after", 500)
        .unwrap();
    let edited = current_schedule(&fixture.goals, &fixture.store, &fixture.threads, id).unwrap();
    assert_eq!(edited.wake_at_millis(), None);
    assert!(!edited.same_as(&scheduled));

    let mut paused = fixture.goal.clone();
    paused.status = ThreadGoalStatus::Paused;
    fixture.goals.put_thread_goal(paused.clone());
    fixture.goals.resume_thread_goal_at(&paused, 500).unwrap();
    let resumed = current_schedule(&fixture.goals, &fixture.store, &fixture.threads, id).unwrap();
    assert_eq!(resumed.wake_at_millis(), None);
    assert!(!resumed.same_as(&scheduled));
}

#[test]
fn activation_numbers_are_not_given_twice() {
    let mut goals = GoalStore::new();
    let mut threads = ThreadDirectory::new();
    let store = SaffronStore::new(0);
    for value in [1_u128, 2, 3] {
        goals.put_thread_goal(active_goal(value, "first"));
        threads.insert(ThreadId { value }, root_record());
    }
    let mut scheduler = Scheduler::new();
    let mut given: Vec<u64> = Vec::new();
    for objective in ["first", "second", "third"] {
        goals.put_thread_goal(active_goal(2, objective));
        let changes = scheduler.reconcile(&scan_eligible_goals(&goals, &store, &threads));
        for cancelled in &changes.cancelled {
            assert!(given.contains(cancelled));
        }
        for started in &changes.started {
            assert!(!given.contains(&started.activation));
            given.push(started.activation);
        }
    }
    assert_eq!(given, vec![0, 1, 2, 3, 4]);
}
