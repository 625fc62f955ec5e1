use saffrodex::await_exec::await_request;
use saffrodex::await_exec::await_response;
use saffrodex::await_exec::conclude_await;
use saffrodex::await_exec::conclude_timeout;
use saffrodex::await_exec::response_token_limit;
use saffrodex::await_exec::AwaitExecArgs;
use saffrodex::await_exec::ReturnOn;
use saffrodex::await_exec::WakeReason;
use saffrodex::clock::Moment;
use saffrodex::followup::followup_step;
use saffrodex::followup::followup_tool_name;
use saffrodex::followup::plan_followup;
use saffrodex::followup::FollowupEvent;
use saffrodex::followup::FollowupStep;
use saffrodex::followup::MessageForm;
use saffrodex::goal_supervisor::tools::Kind;
use saffrodex::goals::ThreadGoalStatus;
use saffrodex::ids::ThreadId;
use saffrodex::interaction::awaits_trailing_output;
use saffrodex::interaction::exit_observed;
use saffrodex::interaction::output_or_exit_observed;
use saffrodex::interaction::ExecError;
use saffrodex::interaction::FinishStep;
use saffrodex::interaction::PendingOutput;
use saffrodex::interaction::ProcessEntry;
use saffrodex::interaction::ProcessObservation;
use saffrodex::interaction::ProcessStore;
use saffrodex::interaction::ProcessWaitReason;
use saffrodex::interaction::ResponseContext;
use saffrodex::interaction::TruncationPolicy;
use saffrodex::recovery::check_resumed_thread;
use saffrodex::recovery::closing_message;
use saffrodex::recovery::confirm_unload;
use saffrodex::recovery::release_step;
use saffrodex::recovery::MaterializedRoot;
use saffrodex::recovery::Recovery;
use saffrodex::recovery::RecoveryAction;
use saffrodex::recovery::RecoveryEvent;
use saffrodex::recovery::RecoveryPhase;
use saffrodex::recovery::ReleaseStep;

const PROCESS_ID: i32 = 1000;

fn process_entry(process: u64) -> ProcessEntry {
    ProcessEntry {
        process,
        call_id: "call-1".to_string(),
        hook_command: "sleep 60".to_string(),
        last_used: Moment { nanos: 0 },
    }
}

fn store_with_live_process() -> ProcessStore {
    let mut store = ProcessStore::new();
    store.insert(PROCESS_ID, process_entry(1));
    store
}

fn observed(has_exited: bool) -> ProcessObservation {
    ProcessObservation {
        approval_cancelled: false,
        failure_message: None,
        has_exited,
        exit_code: if has_exited { Some(7) } else { None },
    }
}

fn context(tokens: u64) -> ResponseContext {
    ResponseContext {
        chunk_id: "chunk".to_string(),
        wall_time_nanos: 5,
        truncation_policy: TruncationPolicy::Tokens(1_000),
        max_output_tokens: None,
        approximate_tokens: tokens,
        omission_marker: b"[...]".to_vec(),
    }
}

fn pending(text: &[u8]) -> PendingOutput {
    PendingOutput { head: text.to_vec(), tail: Vec::new(), omitted_bytes: 0 }
}

#[test]
fn acquisition_timeout_rejects_a_removed_process() {
    let mut store = store_with_live_process();
    let selected = store.select(PROCESS_ID).unwrap();
    let removed = store.remove(PROCESS_ID);
    let result = store.expire(selected, false);

    assert!(removed);
    assert!(matches!(
        result,
        Err(ExecError::UnknownProcessId {
            process_id: PROCESS_ID
        })
    ));
}

#[test]
fn cancelled_finalization_leaves_output_for_the_next_interaction() {
    let mut store = store_with_live_process();
    let mut output = pending(b"retained\n");
    let selected = store.select(PROCESS_ID).unwrap();
    let interaction = store
        .acquire(&selected, Moment { nanos: 1 })
        .expect("process should be available");
    // The first interaction is dropped before it can commit.
    assert!(matches!(interaction.finish_step(&observed(false)), FinishStep::Commit));
    drop(interaction);

    let selected = store.select(PROCESS_ID).unwrap();
    let interaction = store
        .acquire(&selected, Moment { nanos: 2 })
        .expect("cancelled finalization should leave the process available");
    let result = interaction
        .commit(&mut store, &observed(false), &mut output)
        .expect("the next interaction should finish")
        .expect("nothing is left to settle");
    let told = result.into_tool_output(context(3));

    assert_eq!(told.raw_output, b"retained\n");
    assert_eq!(told.process_id, Some(PROCESS_ID));
    assert!(!output.is_available());
}

#[test]
fn stale_processes_are_not_interacted_with() {
    let mut store = store_with_live_process();
    assert!(matches!(
        store.select(5),
        Err(ExecError::UnknownProcessId { process_id: 5 })
    ));
    let selected = store.select(PROCESS_ID).unwrap();
    let interaction = store.acquire(&selected, Moment { nanos: 1 }).unwrap();
    store.insert(PROCESS_ID, process_entry(2));
    assert!(store.acquire(&selected, Moment { nanos: 2 }).is_err());
    let mut output = pending(b"kept");
    assert!(interaction.commit(&mut store, &observed(false), &mut output).is_err());
    assert!(output.is_available());
    assert!(store.expire(selected, false).is_err());
    let selected = store.select(PROCESS_ID).unwrap();
    assert!(store.expire(selected, true).is_err());
    let selected = store.select(PROCESS_ID).unwrap();
    let timeout = store.expire(selected, false).unwrap();
    let concluded = conclude_timeout(timeout, context(0));
    assert_eq!(concluded.reason, WakeReason::Timeout);
    assert_eq!(concluded.output.process_id, Some(PROCESS_ID));
    assert_eq!(concluded.output.raw_output, Vec::<u8>::new());
    assert_eq!(concluded.output.hook_command.as_deref(), Some("sleep 60"));
}

#[test]
fn exits_are_settled_before_output_is_consumed() {
    let mut store = store_with_live_process();
    let selected = store.select(PROCESS_ID).unwrap();
    let mut interaction = store.acquire(&selected, Moment { nanos: 1 }).unwrap();
    let mut output = pending(b"tail\n");
    assert!(matches!(interaction.finish_step(&observed(true)), FinishStep::FinishApproval));
    assert!(interaction.commit(&mut store, &observed(true), &mut output).unwrap().is_none());
    assert!(output.is_available());
    assert!(store.holds(PROCESS_ID, 1));
    interaction.exit_cleanup_done();
    assert!(matches!(interaction.finish_step(&observed(true)), FinishStep::Commit));
    let result =
        interaction.commit(&mut store, &observed(true), &mut output).unwrap().unwrap();
    assert!(result.has_exited());
    assert!(!store.holds(PROCESS_ID, 1));
    let concluded = conclude_await(ProcessWaitReason::Output, result, context(u64::MAX));
    assert_eq!(concluded.reason, WakeReason::Exit);
    assert_eq!(concluded.output.exit_code, Some(7));
    assert_eq!(concluded.output.process_id, None);
    assert_eq!(concluded.output.original_token_count, Some(usize::MAX));
}

#[test]
fn failures_end_the_interaction_without_output() {
    let mut store = store_with_live_process();
    let selected = store.select(PROCESS_ID).unwrap();
    let interaction = store.acquire(&selected, Moment { nanos: 1 }).unwrap();
    let mut failed = observed(true);
    failed.failure_message = Some("spawn failed".to_string());
    assert!(matches!(
        interaction.finish_step(&failed),
        FinishStep::Fail { message } if message == "spawn failed"
    ));
    failed.approval_cancelled = true;
    assert!(matches!(interaction.finish_step(&failed), FinishStep::Deny));
    let mut output = pending(b"kept");
    assert!(interaction.commit(&mut store, &failed, &mut output).unwrap().is_none());
    let error = interaction.fail(&mut store, Some("spawn failed"), "network denied");
    assert!(matches!(
        error,
        ExecError::ProcessFailed { message } if message == "spawn failed"
    ));
    assert!(store.select(PROCESS_ID).is_err());
    store.insert(PROCESS_ID, process_entry(2));
    let selected = store.select(PROCESS_ID).unwrap();
    let interaction = store.acquire(&selected, Moment { nanos: 2 }).unwrap();
    assert!(matches!(
        interaction.fail(&mut store, None, "network denied"),
        ExecError::ProcessFailed { message } if message == "network denied"
    ));
    assert!(output.is_available());
}

#[test]
fn omitted_output_is_marked() {
    let mut store = store_with_live_process();
    let selected = store.select(PROCESS_ID).unwrap();
    let interaction = store.acquire(&selected, Moment { nanos: 1 }).unwrap();
    let mut output =
        PendingOutput { head: b"head".to_vec(), tail: b"tail".to_vec(), omitted_bytes: 9 };
    assert_eq!(output.total_bytes(), 17);
    assert_eq!(
        PendingOutput { head: b"x".to_vec(), tail: Vec::new(), omitted_bytes: usize::MAX }
            .total_bytes(),
        usize::MAX
    );
    let told = interaction
        .commit(&mut store, &observed(false), &mut output)
        .unwrap()
        .unwrap()
        .into_tool_output(context(4));
    assert_eq!(told.raw_output, b"head[...]tail");
    assert_eq!(told.output_omitted_bytes, Some(9));
    assert_eq!(told.original_token_count, Some(4));
    assert_eq!(told.event_call_id, "call-1");
}

#[test]
fn exit_wins_over_output_and_output_over_the_deadline() {
    let now = Moment { nanos: 10 };
    let past = Some(now);
    assert_eq!(
        output_or_exit_observed(true, true, past, now),
        Some(ProcessWaitReason::Exit)
    );
    assert_eq!(
        output_or_exit_observed(false, true, past, now),
        Some(ProcessWaitReason::Output)
    );
    assert_eq!(
        output_or_exit_observed(false, false, past, now),
        Some(ProcessWaitReason::Timeout)
    );
    assert_eq!(output_or_exit_observed(false, false, None, now), None);
    assert_eq!(exit_observed(true, past, now), Some(ProcessWaitReason::Exit));
    assert_eq!(exit_observed(false, past, now), Some(ProcessWaitReason::Timeout));
    assert_eq!(exit_observed(false, Some(Moment { nanos: 11 }), now), None);
    assert!(awaits_trailing_output(false, Moment { nanos: 11 }, now));
    assert!(!awaits_trailing_output(false, now, now));
    assert!(!awaits_trailing_output(true, Moment { nanos: 11 }, now));
}

#[test]
fn waits_have_a_deadline_of_their_own() {
    let args = AwaitExecArgs {
        session_id: PROCESS_ID,
        return_on: ReturnOn::Exit,
        timeout_ms: Some(2_000),
        max_output_tokens: Some(5),
    };
    let request = await_request(args, Moment { nanos: 7 }).unwrap();
    assert_eq!(request.deadline, Some(Moment { nanos: 2_000_000_007 }));
    assert_eq!(request.process_id, PROCESS_ID);
    assert_eq!(request.return_on, ReturnOn::Exit);
    let unbounded = AwaitExecArgs { timeout_ms: None, ..args };
    assert_eq!(await_request(unbounded, Moment { nanos: 7 }).unwrap().deadline, None);
    let zero = AwaitExecArgs { timeout_ms: Some(0), ..args };
    assert_eq!(
        await_request(zero, Moment { nanos: 7 }).unwrap_err(),
        "timeout_ms must be greater than zero when provided"
    );
}

#[test]
fn responses_are_bounded_by_request_and_policy() {
    assert_eq!(response_token_limit(None, 20_000), 10_000);
    assert_eq!(response_token_limit(None, 8_000), 8_000);
    assert_eq!(response_token_limit(Some(50), 8_000), 50);
    assert_eq!(response_token_limit(Some(50_000), 8_000), 8_000);

    let mut store = store_with_live_process();
    let selected = store.select(PROCESS_ID).unwrap();
    let interaction = store.acquire(&selected, Moment { nanos: 1 }).unwrap();
    let mut output = pending(b"ready\n");
    let result = interaction.commit(&mut store, &observed(false), &mut output).unwrap().unwrap();
    let mut concluded = conclude_await(ProcessWaitReason::Output, result, context(2));
    let response = await_response(&concluded, "ready\n".to_string()).unwrap();
    assert_eq!(response.reason.name(), "output");
    assert_eq!(response.session_id, Some(PROCESS_ID));
    assert_eq!(response.exit_code, None);
    assert_eq!(response.original_token_count, 2);
    assert_eq!(response.output, "ready\n");
    assert_eq!(WakeReason::Exit.name(), "exit");
    assert_eq!(WakeReason::Timeout.name(), "timeout");
    concluded.output.original_token_count = None;
    assert_eq!(
        await_response(&concluded, String::new()).unwrap_err(),
        "await_exec result omitted original token count"
    );
}

#[test]
fn followups_go_to_the_supervised_parent() {
    let parent = ThreadId { value: 3 };
    let plan = plan_followup(" go on ".to_string(), Some(parent), None, None, true).unwrap();
    assert_eq!(plan.parent_thread_id, parent);
    assert_eq!(plan.message, " go on ");
    assert_eq!(plan.author, "/root");
    assert_eq!(plan.form, MessageForm::RenderedTask);
    assert!(plan.trigger_turn);
    let plan = plan_followup(
        "x".to_string(),
        Some(parent),
        Some("/root/goal_supervisor".to_string()),
        Some("/root/worker".to_string()),
        false,
    )
    .unwrap();
    assert_eq!(plan.author, "/root/goal_supervisor");
    assert_eq!(plan.receiver, "/root/worker");
    assert_eq!(plan.form, MessageForm::Encrypted);
    assert_eq!(
        plan_followup(" \n".to_string(), Some(parent), None, None, true).unwrap_err().message(),
        "Empty message can't be sent to the supervised parent"
    );
    assert_eq!(
        plan_followup("x".to_string(), None, None, None, true).unwrap_err().message(),
        "saffron.followup_parent is only available in goal supervisor check-in threads."
    );
    let name = followup_tool_name();
    assert_eq!((name.namespace.as_str(), name.name.as_str()), ("saffron", "followup_parent"));
    assert_ne!(name.name, Kind::Followup.name());
    assert_eq!(followup_step(FollowupEvent::Sent), FollowupStep::Record);
    assert_eq!(followup_step(FollowupEvent::Recorded), FollowupStep::FinishHelper);
    assert_eq!(
        followup_step(FollowupEvent::HelperFinished { delivered: true }),
        FollowupStep::Answer { delivered: true, ends_turn: true }
    );
    assert_eq!(followup_step(FollowupEvent::Failed), FollowupStep::Report);
}

/// A recovery of the first thread that has got as far as looking it up.
fn looking_up() -> Recovery {
    let mut recovery = Recovery::new(ThreadId { value: 1 });
    assert!(matches!(recovery.advance(RecoveryEvent::Permitted), RecoveryAction::CheckClosing));
    assert!(matches!(
        recovery.advance(RecoveryEvent::ClosingRead { is_closing: false }),
        RecoveryAction::LookUp
    ));
    recovery
}

/// A recovery of the first thread that is about to resume it.
fn resuming() -> Recovery {
    let mut recovery = looking_up();
    assert!(matches!(
        recovery.advance(RecoveryEvent::LookedUp { is_loaded: false }),
        RecoveryAction::LoadHistory
    ));
    assert!(matches!(recovery.advance(RecoveryEvent::HistoryLoaded), RecoveryAction::LoadConfig));
    assert!(matches!(
        recovery.advance(RecoveryEvent::ConfigLoaded { has_explicit_model: false }),
        RecoveryAction::PreserveEffort
    ));
    assert!(matches!(recovery.advance(RecoveryEvent::EffortPreserved), RecoveryAction::Resume));
    recovery
}

#[test]
fn loaded_roots_are_recovered_where_they_are() {
    let mut recovery = looking_up();
    assert!(matches!(
        recovery.advance(RecoveryEvent::LookedUp { is_loaded: true }),
        RecoveryAction::AttachListener
    ));
    assert!(matches!(
        recovery.advance(RecoveryEvent::ListenerAttached),
        RecoveryAction::ReadRetention
    ));
    assert!(matches!(
        recovery.advance(RecoveryEvent::RetentionRead { retained: false }),
        RecoveryAction::EnterIdle
    ));
    assert!(matches!(
        recovery.advance(RecoveryEvent::IdleEntered),
        RecoveryAction::Finish { watch_release: false }
    ));
    assert_eq!(recovery.phase(), RecoveryPhase::Finished);

    let mut busy = looking_up();
    busy.advance(RecoveryEvent::LookedUp { is_loaded: true });
    busy.advance(RecoveryEvent::ListenerAttached);
    assert!(matches!(
        busy.advance(RecoveryEvent::RetentionRead { retained: true }),
        RecoveryAction::Finish { watch_release: false }
    ));

    let mut closing = Recovery::new(ThreadId { value: 1 });
    closing.advance(RecoveryEvent::Permitted);
    assert!(matches!(
        closing.advance(RecoveryEvent::ClosingRead { is_closing: true }),
        RecoveryAction::Fail { message } if message == closing_message(ThreadId { value: 1 })
    ));
}

#[test]
fn stored_roots_are_resumed_and_watched() {
    let mut recovery = resuming();
    assert!(matches!(
        recovery.advance(RecoveryEvent::Resumed { thread_id: ThreadId { value: 1 } }),
        RecoveryAction::AttachListener
    ));
    assert!(matches!(
        recovery.advance(RecoveryEvent::ListenerAttached),
        RecoveryAction::EnterIdle
    ));
    assert!(matches!(
        recovery.advance(RecoveryEvent::IdleEntered),
        RecoveryAction::Finish { watch_release: true }
    ));

    let mut explicit = looking_up();
    explicit.advance(RecoveryEvent::LookedUp { is_loaded: false });
    explicit.advance(RecoveryEvent::HistoryLoaded);
    assert!(matches!(
        explicit.advance(RecoveryEvent::ConfigLoaded { has_explicit_model: true }),
        RecoveryAction::Resume
    ));
}

#[test]
fn failed_recoveries_report_why() {
    let (first, second) = (ThreadId { value: 1 }, ThreadId { value: 2 });
    assert_eq!(
        closing_message(first),
        "thread 00000000-0000-0000-0000-000000000001 is closing; retry goal recovery after it closes"
    );
    assert_eq!(check_resumed_thread(first, first), Ok(()));
    let mismatch = "goal recovery resumed thread 00000000-0000-0000-0000-000000000002 \
                    for expected thread 00000000-0000-0000-0000-000000000001";
    assert_eq!(check_resumed_thread(first, second), Err(mismatch.to_string()));
    assert!(matches!(
        resuming().advance(RecoveryEvent::Resumed { thread_id: second }),
        RecoveryAction::Fail { message } if message == mismatch
    ));
    assert!(matches!(
        resuming().advance(RecoveryEvent::Failed { error: "no rollout".to_string() }),
        RecoveryAction::Fail { message } if message == "error resuming thread: no rollout"
    ));
    let mut recovery = looking_up();
    recovery.advance(RecoveryEvent::LookedUp { is_loaded: false });
    assert!(matches!(
        recovery.advance(RecoveryEvent::Failed { error: "no history".to_string() }),
        RecoveryAction::Fail { message } if message == "no history"
    ));
}

#[test]
fn materialized_roots_are_released_when_nothing_keeps_them() {
    let root = MaterializedRoot {
        has_subscribers: false,
        is_still_loaded: true,
        goal_status: Some(Some(ThreadGoalStatus::Complete)),
        has_reconstructible_snooze: false,
        is_running: false,
    };
    assert_eq!(release_step(root), ReleaseStep::Unload);
    assert_eq!(
        release_step(MaterializedRoot { has_subscribers: true, ..root }),
        ReleaseStep::Stop
    );
    assert_eq!(
        release_step(MaterializedRoot { is_still_loaded: false, ..root }),
        ReleaseStep::Stop
    );
    assert_eq!(
        release_step(MaterializedRoot { is_running: true, ..root }),
        ReleaseStep::KeepWatching
    );
    let active = MaterializedRoot { goal_status: Some(Some(ThreadGoalStatus::Active)), ..root };
    assert_eq!(release_step(active), ReleaseStep::KeepWatching);
    assert_eq!(
        release_step(MaterializedRoot { has_reconstructible_snooze: true, ..active }),
        ReleaseStep::Unload
    );
    assert_eq!(
        release_step(MaterializedRoot { goal_status: Some(None), ..root }),
        ReleaseStep::Unload
    );
    assert_eq!(
        release_step(MaterializedRoot { goal_status: None, ..root }),
        ReleaseStep::KeepWatching
    );
    assert!(confirm_unload(false, false));
    assert!(!confirm_unload(true, false));
    assert!(!confirm_unload(false, true));
}

#[test]
fn output_is_told_once() {
    let mut store = store_with_live_process();
    let mut output = pending(b"once\n");
    let selected = store.select(PROCESS_ID).unwrap();
    let interaction = store.acquire(&selected, Moment { nanos: 1 }).unwrap();
    let result = interaction.commit(&mut store, &observed(false), &mut output).unwrap().unwrap();
    assert_eq!(result.into_tool_output(context(2)).raw_output, b"once\n");

    let mut next = store.acquire(&selected, Moment { nanos: 2 }).unwrap();
    let result = next.commit(&mut store, &observed(false), &mut output).unwrap().unwrap();
    assert_eq!(result.into_tool_output(context(0)).raw_output, Vec::<u8>::new());

    next.exit_cleanup_done();
    assert!(next.commit(&mut store, &observed(true), &mut output).unwrap().is_some());
    assert!(matches!(
        next.commit(&mut store, &observed(true), &mut output),
        Err(ExecError::UnknownProcessId { process_id: PROCESS_ID })
    ));
}
