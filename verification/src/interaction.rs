//! Serialized interactions with stored processes.
//!
//! This module is the lifecycle boundary for consumers that need to wait on or
//! drain an existing process.  An interaction is selected, then serialized by
//! the host's per-process lock, then waited on, and at last finished.
//! Consumers may choose which process event to await, but they do not
//! coordinate process-store removal, deferred network approval, failure
//! precedence, or hook identity.
//!
//! Simultaneous events have a stable precedence.  Acquiring the interaction
//! lock wins over its deadline.  Once acquired, process exit wins over output
//! and the deadline, and available output wins over the deadline.
use std::collections::HashMap;
use vstd::prelude::*;

use crate::clock::Moment;
use crate::text::optional_chars;

verus! {

broadcast use vstd::std_specs::hash::group_hash_axioms;

/// How long output is waited for after an exit, in milliseconds.
pub const POST_EXIT_OUTPUT_CLOSE_WAIT_MS: u64 = 50;

/// Why an interaction failed.
#[derive(Debug)]
pub enum ExecError {
    /// No process with this ID, or not the one that was selected.
    UnknownProcessId { process_id: i32 },
    /// The process failed.
    ProcessFailed { message: String },
}

/// A stored process.
#[derive(Debug)]
pub struct ProcessEntry {
    /// Tells processes apart, also those that had the same ID.
    pub process: u64,
    pub call_id: String,
    pub hook_command: String,
    pub last_used: Moment,
}

/// The mathematical content of a [`ProcessEntry`].
pub struct EntryView {
    pub process: u64,
    pub call_id: Seq<char>,
    pub hook_command: Seq<char>,
    pub last_used: Moment,
}

impl View for ProcessEntry {
    type V = EntryView;

    open spec fn view(&self) -> EntryView {
        EntryView {
            process: self.process,
            call_id: self.call_id@,
            hook_command: self.hook_command@,
            last_used: self.last_used,
        }
    }
}

/// The stored processes.
#[derive(Debug)]
pub struct ProcessStore {
    processes: HashMap<i32, ProcessEntry>,
}

impl View for ProcessStore {
    type V = Map<i32, EntryView>;

    closed spec fn view(&self) -> Map<i32, EntryView> {
        self.processes@.map_values(|entry: ProcessEntry| entry@)
    }
}

/// Whether a process is stored under an ID.
pub open spec fn is_stored(store: Map<i32, EntryView>, process_id: i32, process: u64) -> bool {
    store.dom().contains(process_id) && store[process_id].process == process
}

/// A process that an interaction was asked for.
#[derive(Debug)]
pub struct SelectedProcess {
    pub process_id: i32,
    pub process: u64,
    pub call_id: String,
    pub hook_command: String,
}

/// What remains to be told of a process after an interaction.
#[derive(Debug)]
pub struct ProcessInteractionOutcome {
    /// The ID, while the process can be interacted with again.
    pub process_id: Option<i32>,
    pub exit_code: Option<i32>,
    pub event_call_id: String,
    pub hook_command: String,
}

/// Live-session metadata captured when interaction acquisition times out.
///
/// It does not claim that an interaction was acquired or finalized, and it
/// never contains process output.
#[derive(Debug)]
pub struct ProcessInteractionTimeout {
    pub outcome: ProcessInteractionOutcome,
}

/// Exclusive access to one stored process and its draining output buffer.
#[derive(Debug)]
pub struct ProcessInteraction {
    pub process_id: i32,
    pub process: u64,
    pub call_id: String,
    pub hook_command: String,
    /// Whether what had to be done after an exit has been done.
    pub exit_cleanup_finished: bool,
}

impl ProcessStore {
    /// No process is stored.
    pub fn new() -> (store: Self)
        ensures
            store@ == Map::<i32, EntryView>::empty(),
    {
        let store = ProcessStore { processes: HashMap::new() };
        proof {
            assert(store@ =~= Map::<i32, EntryView>::empty());
        }
        store
    }

    /// Stores a process under an ID.
    pub fn insert(&mut self, process_id: i32, entry: ProcessEntry)
        ensures
            final(self)@ == old(self)@.insert(process_id, entry@),
    {
        let ghost added = entry@;
        self.processes.insert(process_id, entry);
        proof {
            assert(self@ =~= old(self)@.insert(process_id, added));
        }
    }

    /// Removes the process with an ID.  Returns whether there was one.
    pub fn remove(&mut self, process_id: i32) -> (removed: bool)
        ensures
            removed == old(self)@.dom().contains(process_id),
            final(self)@ == old(self)@.remove(process_id),
    {
        let removed: bool = self.processes.contains_key(&process_id);
        self.processes.remove(&process_id);
        proof {
            assert(self@ =~= old(self)@.remove(process_id));
        }
        removed
    }

    /// Whether a process is stored under an ID.
    pub fn holds(&self, process_id: i32, process: u64) -> (stored: bool)
        ensures
            stored == is_stored(self@, process_id, process),
    {
        match self.processes.get(&process_id) {
            Some(entry) => entry.process == process,
            None => false,
        }
    }

    /// Selects the process with an ID, before its lock is waited for.
    pub fn select(&self, process_id: i32) -> (selected: Result<SelectedProcess, ExecError>)
        ensures
            (match selected {
                Ok(selected) => {
                    &&& self@.dom().contains(process_id)
                    &&& selected.process_id == process_id
                    &&& selected.process == self@[process_id].process
                    &&& selected.call_id@ == self@[process_id].call_id
                    &&& selected.hook_command@ == self@[process_id].hook_command
                },
                Err(error) => !self@.dom().contains(process_id) && error == (
                ExecError::UnknownProcessId { process_id }),
            }),
    {
        match self.processes.get(&process_id) {
            Some(entry) => Ok(
                SelectedProcess {
                    process_id,
                    process: entry.process,
                    call_id: entry.call_id.clone(),
                    hook_command: entry.hook_command.clone(),
                },
            ),
            None => Err(ExecError::UnknownProcessId { process_id }),
        }
    }

    /// Begins an interaction once the lock of the selected process is held.
    ///
    /// The ID may refer to another process by then, or to none.
    pub fn acquire(&mut self, selected: &SelectedProcess, now: Moment) -> (interaction: Result<
        ProcessInteraction,
        ExecError,
    >)
        ensures
            (match interaction {
                Ok(interaction) => {
                    let entry = old(self)@[selected.process_id];
                    &&& is_stored(old(self)@, selected.process_id, selected.process)
                    &&& final(self)@ == old(self)@.insert(
                        selected.process_id,
                        EntryView { last_used: now, ..entry },
                    )
                    &&& interaction.process_id == selected.process_id
                    &&& interaction.process == selected.process
                    &&& interaction.call_id@ == entry.call_id
                    &&& interaction.hook_command@ == entry.hook_command
                    &&& !interaction.exit_cleanup_finished
                },
                Err(error) => {
                    &&& !is_stored(old(self)@, selected.process_id, selected.process)
                    &&& final(self)@ == old(self)@
                    &&& error == (ExecError::UnknownProcessId { process_id: selected.process_id })
                },
            }),
    {
        let process_id: i32 = selected.process_id;
        let (call_id, hook_command): (String, String) = match self.processes.get(&process_id) {
            Some(entry) => if entry.process == selected.process {
                (entry.call_id.clone(), entry.hook_command.clone())
            } else {
                return Err(ExecError::UnknownProcessId { process_id });
            },
            None => {
                return Err(ExecError::UnknownProcessId { process_id });
            },
        };
        self.insert(
            process_id,
            ProcessEntry {
                process: selected.process,
                call_id: call_id.clone(),
                hook_command: hook_command.clone(),
                last_used: now,
            },
        );
        Ok(
            ProcessInteraction {
                process_id,
                process: selected.process,
                call_id,
                hook_command,
                exit_cleanup_finished: false,
            },
        )
    }

    /// Gives up on an interaction whose lock was not to be had in time.
    ///
    /// The process still belongs to another interaction.  No output is
    /// consumed.  `has_exited` says whether the selected process has exited.
    pub fn expire(&self, selected: SelectedProcess, has_exited: bool) -> (timeout: Result<
        ProcessInteractionTimeout,
        ExecError,
    >)
        ensures
            (match timeout {
                Ok(timeout) => {
                    &&& is_stored(self@, selected.process_id, selected.process)
                    &&& !has_exited
                    &&& timeout.outcome.process_id == Some(selected.process_id)
                    &&& timeout.outcome.exit_code is None
                    &&& timeout.outcome.event_call_id@ == selected.call_id@
                    &&& timeout.outcome.hook_command@ == selected.hook_command@
                },
                Err(error) => {
                    &&& !(is_stored(self@, selected.process_id, selected.process) && !has_exited)
                    &&& error == (ExecError::UnknownProcessId { process_id: selected.process_id })
                },
            }),
    {
        if self.holds(selected.process_id, selected.process) && !has_exited {
            Ok(
                ProcessInteractionTimeout {
                    outcome: ProcessInteractionOutcome {
                        process_id: Some(selected.process_id),
                        exit_code: None,
                        event_call_id: selected.call_id,
                        hook_command: selected.hook_command,
                    },
                },
            )
        } else {
            Err(ExecError::UnknownProcessId { process_id: selected.process_id })
        }
    }
}

/// A process event observed while holding serialized interaction access.
#[derive(Clone, Copy, Debug, PartialEq, Eq, Structural)]
pub enum ProcessWaitReason {
    Output,
    Exit,
    Timeout,
}

/// Whether a deadline has been reached.
pub open spec fn is_reached(deadline: Option<Moment>, now: Moment) -> bool {
    deadline is Some && now.nanos >= deadline->0.nanos
}

/// Whether a deadline has been reached.
fn reached(deadline: Option<Moment>, now: Moment) -> (yes: bool)
    ensures
        yes == is_reached(deadline, now),
{
    match deadline {
        Some(deadline) => now.nanos >= deadline.nanos,
        None => false,
    }
}

/// Why a wait for output or exit is over, if it is.  Exit wins over output and
/// the deadline, and output wins over the deadline.
pub fn output_or_exit_observed(
    has_exited: bool,
    has_output: bool,
    deadline: Option<Moment>,
    now: Moment,
) -> (reason: Option<ProcessWaitReason>)
    ensures
        reason == (if has_exited {
            Some(ProcessWaitReason::Exit)
        } else if has_output {
            Some(ProcessWaitReason::Output)
        } else if is_reached(deadline, now) {
            Some(ProcessWaitReason::Timeout)
        } else {
            None
        }),
{
    if has_exited {
        Some(ProcessWaitReason::Exit)
    } else if has_output {
        Some(ProcessWaitReason::Output)
    } else if reached(deadline, now) {
        Some(ProcessWaitReason::Timeout)
    } else {
        None
    }
}

/// Why a wait for exit is over, if it is.  Exit wins over the deadline, and
/// output does not matter.
pub fn exit_observed(has_exited: bool, deadline: Option<Moment>, now: Moment) -> (reason: Option<
    ProcessWaitReason,
>)
    ensures
        reason == (if has_exited {
            Some(ProcessWaitReason::Exit)
        } else if is_reached(deadline, now) {
            Some(ProcessWaitReason::Timeout)
        } else {
            None
        }),
{
    if has_exited {
        Some(ProcessWaitReason::Exit)
    } else if reached(deadline, now) {
        Some(ProcessWaitReason::Timeout)
    } else {
        None
    }
}

/// Whether output is still waited for after an exit.
///
/// After exit, the process state may arrive before its output reader closes.
/// The reader is waited for briefly, so that immediately trailing bytes are
/// there, but inherited open streams never postpone the exit response without
/// bound.
pub fn awaits_trailing_output(output_closed: bool, deadline: Moment, now: Moment) -> (waits: bool)
    ensures
        waits == (!output_closed && now.nanos < deadline.nanos),
{
    !output_closed && now.nanos < deadline.nanos
}

/// The output of a process that has not been consumed: its beginning and its
/// end, and how much in between was left out.
#[derive(Debug)]
pub struct PendingOutput {
    pub head: Vec<u8>,
    pub tail: Vec<u8>,
    pub omitted_bytes: usize,
}

/// The mathematical content of a [`PendingOutput`].
pub struct OutputView {
    pub head: Seq<u8>,
    pub tail: Seq<u8>,
    pub omitted_bytes: usize,
}

impl View for PendingOutput {
    type V = OutputView;

    open spec fn view(&self) -> OutputView {
        OutputView { head: self.head@, tail: self.tail@, omitted_bytes: self.omitted_bytes }
    }
}

/// No output.
pub open spec fn no_output() -> OutputView {
    OutputView { head: Seq::empty(), tail: Seq::empty(), omitted_bytes: 0 }
}

/// How many bytes of an output were observed, as far as that can be counted.
pub open spec fn observed_bytes(output: OutputView) -> int {
    let total = output.head.len() + output.tail.len() + output.omitted_bytes;
    if total <= usize::MAX {
        total
    } else {
        usize::MAX as int
    }
}

impl PendingOutput {
    /// No output.
    pub fn new() -> (output: Self)
        ensures
            output@ == no_output(),
    {
        PendingOutput { head: Vec::new(), tail: Vec::new(), omitted_bytes: 0 }
    }

    /// Whether there is any output.
    pub fn is_available(&self) -> (available: bool)
        ensures
            available == (self@.head.len() > 0 || self@.tail.len() > 0 || self@.omitted_bytes > 0),
    {
        self.head.len() > 0 || self.tail.len() > 0 || self.omitted_bytes > 0
    }

    /// How many bytes were observed, those that were left out included.
    pub fn total_bytes(&self) -> (total: usize)
        ensures
            total == observed_bytes(self@),
    {
        self.head.len().saturating_add(self.tail.len()).saturating_add(self.omitted_bytes)
    }

    /// Consumes the output.
    fn drain(&mut self) -> (output: PendingOutput)
        ensures
            output@ == old(self)@,
            final(self)@ == no_output(),
    {
        let mut output: PendingOutput = PendingOutput::new();
        std::mem::swap(self, &mut output);
        output
    }
}

/// What is seen of a process and its deferred network approval.
#[derive(Debug)]
pub struct ProcessObservation {
    pub approval_cancelled: bool,
    pub failure_message: Option<String>,
    pub has_exited: bool,
    pub exit_code: Option<i32>,
}

/// What is done next to finish an interaction.
#[derive(Debug)]
pub enum FinishStep {
    /// Ask for the message of the denial; the interaction fails.
    Deny,
    /// Finish the approval; the interaction fails with this message, whatever
    /// comes of that.
    Fail { message: String },
    /// Finish the approval after the exit; the interaction fails if that does.
    FinishApproval,
    /// Hold the output and the store, and try to commit.
    Commit,
}

/// Lifecycle state and bounded output produced by one completed interaction.
///
/// The process ID is retained only while the session remains reusable.
#[derive(Debug)]
pub struct ProcessInteractionResult {
    pub outcome: ProcessInteractionOutcome,
    pub output: PendingOutput,
}

/// Whether something has to be settled before output may be consumed.
pub open spec fn is_unsettled(
    interaction: ProcessInteraction,
    observed: ProcessObservation,
) -> bool {
    observed.approval_cancelled || observed.failure_message is Some || (observed.has_exited
        && !interaction.exit_cleanup_finished)
}

/// Whether output may be consumed: the process is the one that is stored, and
/// nothing has to be settled first.
pub open spec fn may_commit(
    interaction: ProcessInteraction,
    observed: ProcessObservation,
    store: Map<i32, EntryView>,
) -> bool {
    is_stored(store, interaction.process_id, interaction.process) && !is_unsettled(
        interaction,
        observed,
    )
}

/// The store and the output after an attempt to commit, and what is told of
/// the output, if anything.
pub open spec fn after_commit(
    interaction: ProcessInteraction,
    observed: ProcessObservation,
    store: Map<i32, EntryView>,
    output: OutputView,
) -> (Map<i32, EntryView>, OutputView, Option<OutputView>) {
    if !may_commit(interaction, observed, store) {
        (store, output, None)
    } else if observed.has_exited {
        (store.remove(interaction.process_id), no_output(), Some(output))
    } else {
        (store, no_output(), Some(output))
    }
}

/// The message that a failed interaction ends with.  A recorded failure of the
/// process remains authoritative; otherwise what failed now supplies it.
pub open spec fn terminal_text(recorded: Option<Seq<char>>, supplied: Seq<char>) -> Seq<char> {
    match recorded {
        Some(recorded) => recorded,
        None => supplied,
    }
}

impl ProcessInteraction {
    /// Decides what is done next to finish the interaction.
    ///
    /// All fallible cleanup precedes the commit.  A cancelled approval comes
    /// before a failure of the process, and that before the exit.
    pub fn finish_step(&self, observed: &ProcessObservation) -> (step: FinishStep)
        ensures
            (match step {
                FinishStep::Deny => observed.approval_cancelled,
                FinishStep::Fail { message } => !observed.approval_cancelled
                    && observed.failure_message is Some && message@
                    == observed.failure_message->0@,
                FinishStep::FinishApproval => !observed.approval_cancelled
                    && observed.failure_message is None && observed.has_exited
                    && !self.exit_cleanup_finished,
                FinishStep::Commit => !is_unsettled(*self, *observed),
            }),
    {
        if observed.approval_cancelled {
            return FinishStep::Deny;
        }
        match &observed.failure_message {
            Some(message) => FinishStep::Fail { message: message.clone() },
            None => if observed.has_exited && !self.exit_cleanup_finished {
                FinishStep::FinishApproval
            } else {
                FinishStep::Commit
            },
        }
    }

    /// Takes note that the approval has been finished after the exit.
    pub fn exit_cleanup_done(&mut self)
        ensures
            *final(self) == (ProcessInteraction { exit_cleanup_finished: true, ..*old(self) }),
    {
        self.exit_cleanup_finished = true;
    }

    /// Ends the interaction with a failure.  The process is no longer stored,
    /// and its output is not consumed.
    ///
    /// `recorded` is the failure that the process has recorded, if any;
    /// `supplied` is that of the denial or of the cleanup.
    pub fn fail(self, store: &mut ProcessStore, recorded: Option<&str>, supplied: &str) -> (error:
        ExecError)
        ensures
            final(store)@ == old(store)@.remove(self.process_id),
            error is ProcessFailed,
            error->message@ == terminal_text(optional_chars(recorded), supplied@),
    {
        store.remove(self.process_id);
        match recorded {
            Some(recorded) => ExecError::ProcessFailed { message: recorded.to_string() },
            None => ExecError::ProcessFailed { message: supplied.to_string() },
        }
    }

    /// Consumes the output and, if the process has exited, removes it from the
    /// store: both, or neither.
    ///
    /// Returns `None` if something has to be settled first.
    pub fn commit(
        &self,
        store: &mut ProcessStore,
        observed: &ProcessObservation,
        output: &mut PendingOutput,
    ) -> (result: Result<Option<ProcessInteractionResult>, ExecError>)
        ensures
            (final(store)@, final(output)@) == ({
                let after = after_commit(*self, *observed, old(store)@, old(output)@);
                (after.0, after.1)
            }),
            (match result {
                Err(error) => {
                    &&& !is_stored(old(store)@, self.process_id, self.process)
                    &&& error == (ExecError::UnknownProcessId { process_id: self.process_id })
                },
                Ok(None) => {
                    &&& is_stored(old(store)@, self.process_id, self.process)
                    &&& is_unsettled(*self, *observed)
                },
                Ok(Some(result)) => {
                    &&& may_commit(*self, *observed, old(store)@)
                    &&& result.output@ == old(output)@
                    &&& result.outcome.process_id == (if observed.has_exited {
                        None
                    } else {
                        Some(self.process_id)
                    })
                    &&& result.outcome.exit_code == observed.exit_code
                    &&& result.outcome.event_call_id@ == self.call_id@
                    &&& result.outcome.hook_command@ == self.hook_command@
                },
            }),
    {
        if !store.holds(self.process_id, self.process) {
            return Err(ExecError::UnknownProcessId { process_id: self.process_id });
        }
        if observed.approval_cancelled || observed.failure_message.is_some() || (
        observed.has_exited && !self.exit_cleanup_finished) {
            return Ok(None);
        }
        let process_id: Option<i32> = if observed.has_exited {
            store.remove(self.process_id);
            None
        } else {
            Some(self.process_id)
        };
        let drained: PendingOutput = output.drain();
        Ok(
            Some(
                ProcessInteractionResult {
                    outcome: ProcessInteractionOutcome {
                        process_id,
                        exit_code: observed.exit_code,
                        event_call_id: self.call_id.clone(),
                        hook_command: self.hook_command.clone(),
                    },
                    output: drained,
                },
            ),
        )
    }
}

/// Output is consumed exactly if it is told, and a process is removed exactly
/// if it exited and its output is told: both, or neither.
pub proof fn commits_are_all_or_nothing(
    interaction: ProcessInteraction,
    observed: ProcessObservation,
    store: Map<i32, EntryView>,
    output: OutputView,
)
    ensures
        ({
            let (left, rest, told) = after_commit(interaction, observed, store, output);
            &&& told is None ==> left == store && rest == output
            &&& told is Some ==> told == Some(output) && rest == no_output()
            &&& told is Some && observed.has_exited ==> !left.dom().contains(
                interaction.process_id,
            )
            &&& told is Some && !observed.has_exited ==> left == store
            &&& forall|id: i32|
                id != interaction.process_id ==> #[trigger] left.dom().contains(id)
                    == store.dom().contains(id)
        }),
{
}

/// Output is told once: what one interaction told is not told again by the
/// next, which is told nothing of an exited process at all.
pub proof fn output_is_told_once(
    first: ProcessInteraction,
    seen_first: ProcessObservation,
    next: ProcessInteraction,
    seen_next: ProcessObservation,
    store: Map<i32, EntryView>,
    output: OutputView,
)
    requires
        may_commit(first, seen_first, store),
        next.process_id == first.process_id,
    ensures
        ({
            let (left, rest, _) = after_commit(first, seen_first, store, output);
            let told = after_commit(next, seen_next, left, rest).2;
            &&& told is Some ==> told == Some(no_output())
            &&& seen_first.has_exited ==> told is None
        }),
{
}

/// An interaction that something has to be settled for, or whose process was
/// replaced, leaves the output to the next interaction, which is told all of
/// it.
pub proof fn unfinished_interactions_lose_nothing(
    first: ProcessInteraction,
    seen_first: ProcessObservation,
    next: ProcessInteraction,
    seen_next: ProcessObservation,
    store: Map<i32, EntryView>,
    output: OutputView,
)
    requires
        !may_commit(first, seen_first, store),
        may_commit(next, seen_next, store),
    ensures
        ({
            let (left, rest, _) = after_commit(first, seen_first, store, output);
            after_commit(next, seen_next, left, rest).2 == Some(output)
        }),
{
}

/// How much of an output a model may see.
#[derive(Clone, Copy, Debug, PartialEq, Eq, Structural)]
pub enum TruncationPolicy {
    Bytes(usize),
    Tokens(usize),
}

/// What is known only once a response is made.
#[derive(Debug)]
pub struct ResponseContext {
    /// Identifies the chunk of output.
    pub chunk_id: String,
    /// How long the operation took, in nanoseconds.
    pub wall_time_nanos: u128,
    pub truncation_policy: TruncationPolicy,
    pub max_output_tokens: Option<usize>,
    /// About how many tokens the observed bytes of the output take, before
    /// truncation.
    pub approximate_tokens: u64,
    /// Stands for what was left out of the output.
    pub omission_marker: Vec<u8>,
}

/// The canonical output of an exec tool.
#[derive(Debug)]
pub struct ExecCommandToolOutput {
    pub event_call_id: String,
    pub chunk_id: String,
    pub wall_time_nanos: u128,
    pub raw_output: Vec<u8>,
    pub truncation_policy: TruncationPolicy,
    pub max_output_tokens: Option<usize>,
    pub process_id: Option<i32>,
    pub exit_code: Option<i32>,
    pub original_token_count: Option<usize>,
    pub output_omitted_bytes: Option<usize>,
    pub hook_command: Option<String>,
}

/// The bytes of an output, with a marker where something was left out.
pub open spec fn marked_bytes(output: OutputView, marker: Seq<u8>) -> Seq<u8> {
    if output.omitted_bytes > 0 {
        output.head + marker + output.tail
    } else {
        output.head + output.tail
    }
}

/// Whether a tool output tells of an outcome and an output.
pub open spec fn tells(
    told: ExecCommandToolOutput,
    outcome: ProcessInteractionOutcome,
    output: OutputView,
    context: ResponseContext,
) -> bool {
    &&& told.event_call_id@ == outcome.event_call_id@
    &&& told.chunk_id@ == context.chunk_id@
    &&& told.wall_time_nanos == context.wall_time_nanos
    &&& told.raw_output@ == marked_bytes(output, context.omission_marker@)
    &&& told.truncation_policy == context.truncation_policy
    &&& told.max_output_tokens == context.max_output_tokens
    &&& told.process_id == outcome.process_id
    &&& told.exit_code == outcome.exit_code
    &&& told.original_token_count is Some
    &&& told.original_token_count->0 == (if context.approximate_tokens <= usize::MAX {
        context.approximate_tokens as int
    } else {
        usize::MAX as int
    })
    &&& told.output_omitted_bytes == (if output.omitted_bytes > 0 {
        Some(output.omitted_bytes)
    } else {
        None
    })
    &&& told.hook_command is Some
    &&& told.hook_command->0@ == outcome.hook_command@
}

impl ProcessInteractionOutcome {
    /// Makes the canonical output of an exec tool.
    fn into_tool_output(self, output: PendingOutput, context: ResponseContext) -> (told:
        ExecCommandToolOutput)
        ensures
            tells(told, self, output@, context),
    {
        let omitted_bytes: usize = output.omitted_bytes;
        let mut raw_output: Vec<u8> = output.head;
        let mut tail: Vec<u8> = output.tail;
        let mut marker: Vec<u8> = context.omission_marker;
        if omitted_bytes > 0 {
            raw_output.append(&mut marker);
        }
        raw_output.append(&mut tail);
        ExecCommandToolOutput {
            event_call_id: self.event_call_id,
            chunk_id: context.chunk_id,
            wall_time_nanos: context.wall_time_nanos,
            raw_output,
            truncation_policy: context.truncation_policy,
            max_output_tokens: context.max_output_tokens,
            process_id: self.process_id,
            exit_code: self.exit_code,
            original_token_count: Some(
                if context.approximate_tokens <= usize::MAX as u64 {
                    context.approximate_tokens as usize
                } else {
                    usize::MAX
                },
            ),
            output_omitted_bytes: if omitted_bytes > 0 {
                Some(omitted_bytes)
            } else {
                None
            },
            hook_command: Some(self.hook_command),
        }
    }
}

impl ProcessInteractionResult {
    /// Whether lifecycle reconciliation observed process termination.
    pub fn has_exited(&self) -> (exited: bool)
        ensures
            exited == (self.outcome.process_id is None),
    {
        self.outcome.process_id.is_none()
    }

    /// Converts the result to the canonical tool representation.
    pub fn into_tool_output(self, context: ResponseContext) -> (told: ExecCommandToolOutput)
        ensures
            tells(told, self.outcome, self.output@, context),
    {
        self.outcome.into_tool_output(self.output, context)
    }
}

impl ProcessInteractionTimeout {
    /// Converts the live timeout snapshot to an empty response.
    pub fn into_tool_output(self, context: ResponseContext) -> (told: ExecCommandToolOutput)
        ensures
            tells(told, self.outcome, no_output(), context),
    {
        self.outcome.into_tool_output(PendingOutput::new(), context)
    }
}

/// Whether a stored process is the one that an interaction is with.
pub open spec fn is_with_the_stored_process(
    interaction: ProcessInteraction,
    store: Map<i32, EntryView>,
) -> bool {
    store.dom().contains(interaction.process_id) && store[interaction.process_id].process
        == interaction.process
}

/// An interaction is told its output exactly if its process is still the one
/// stored under its ID, no approval was cancelled, no failure was recorded and
/// what an exit leaves to do has been done.  All output is then told and none
/// is left.  The process is removed exactly if it has exited; no other is.
pub proof fn settled_interactions_are_told_their_output(
    interaction: ProcessInteraction,
    observed: ProcessObservation,
    store: Map<i32, EntryView>,
    output: OutputView,
)
    ensures
        ({
            let (left, rest, told) = after_commit(interaction, observed, store, output);
            let settled = !observed.approval_cancelled && observed.failure_message is None && (
            observed.has_exited ==> interaction.exit_cleanup_finished);
            &&& told is Some <==> is_with_the_stored_process(interaction, store) && settled
            &&& is_unsettled(interaction, observed) <==> !settled
            &&& is_stored(store, interaction.process_id, interaction.process)
                <==> is_with_the_stored_process(interaction, store)
            &&& may_commit(interaction, observed, store) <==> told is Some
            &&& told is Some ==> {
                &&& told->0.head == output.head
                &&& told->0.tail == output.tail
                &&& told->0.omitted_bytes == output.omitted_bytes
                &&& rest.head.len() == 0
                &&& rest.tail.len() == 0
                &&& rest.omitted_bytes == 0
            }
            &&& told is None ==> rest == output
            &&& left == if told is Some && observed.has_exited {
                store.remove(interaction.process_id)
            } else {
                store
            }
        }),
{
}

/// A deadline is reached at its very moment and from then on; where there is
/// none, none is.
pub proof fn deadlines_are_reached_on_time(deadline: Moment, now: Moment)
    ensures
        !is_reached(None, now),
        is_reached(Some(deadline), now) <==> !(now.nanos < deadline.nanos),
{
}

/// The bytes of an output are those kept at the front, those kept at the back
/// and those left out between them, as far as they can be counted.
pub proof fn output_counts_kept_and_omitted_bytes(output: PendingOutput)
    ensures
        observed_bytes(output@) <= output.head@.len() + output.tail@.len() + output.omitted_bytes,
        observed_bytes(output@) == output.head@.len() + output.tail@.len() + output.omitted_bytes
            || observed_bytes(output@) == usize::MAX,
        observed_bytes(output@) <= usize::MAX,
        output@.head == output.head@,
        output@.tail == output.tail@,
        output@.omitted_bytes == output.omitted_bytes,
{
}

/// The text of a terminal failure is the one that was recorded first; the one
/// supplied stands in only where none was.
pub proof fn recorded_failures_go_first(recorded: Seq<char>, supplied: Seq<char>)
    ensures
        terminal_text(Some(recorded), supplied) == recorded,
        terminal_text(None, supplied) == supplied,
{
}

/// What is told of an output begins with the bytes kept at the front and ends
/// with those kept at the back; the marker stands between them exactly if bytes
/// were left out.
pub proof fn omissions_are_marked_where_they_are(output: OutputView, marker: Seq<u8>)
    ensures
        output.head.is_prefix_of(marked_bytes(output, marker)),
        output.tail.is_suffix_of(marked_bytes(output, marker)),
        output.omitted_bytes == 0 ==> marked_bytes(output, marker).len() == output.head.len()
            + output.tail.len(),
        output.omitted_bytes > 0 ==> marked_bytes(output, marker).len() == output.head.len()
            + marker.len() + output.tail.len() && marked_bytes(output, marker).subrange(
            output.head.len() as int,
            (output.head.len() + marker.len()) as int,
        ) == marker,
{
    let all = marked_bytes(output, marker);
    assert(all.subrange(0, output.head.len() as int) =~= output.head);
    assert(all.subrange(all.len() - output.tail.len(), all.len() as int) =~= output.tail);
    if output.omitted_bytes > 0 {
        let end = (output.head.len() + marker.len()) as int;
        assert(all.subrange(output.head.len() as int, end) =~= marker);
    }
}

/// A response tells the outcome, the output and the context of an interaction:
/// the process only while it runs, its exit code, the identity of its call and
/// its command as they are, and how many bytes were left out if any were.
pub proof fn response_tells_outcome_output_and_context(
    told: ExecCommandToolOutput,
    outcome: ProcessInteractionOutcome,
    output: OutputView,
    context: ResponseContext,
)
    requires
        tells(told, outcome, output, context),
    ensures
        told.process_id == outcome.process_id,
        told.exit_code == outcome.exit_code,
        told.event_call_id@ == outcome.event_call_id@,
        told.hook_command is Some && told.hook_command->0@ == outcome.hook_command@,
        told.chunk_id@ == context.chunk_id@,
        told.wall_time_nanos == context.wall_time_nanos,
        told.truncation_policy == context.truncation_policy,
        told.max_output_tokens == context.max_output_tokens,
        output.omitted_bytes == 0 ==> told.raw_output@ == output.head + output.tail
            && told.output_omitted_bytes is None,
        output.omitted_bytes > 0 ==> told.raw_output@ == output.head + context.omission_marker@
            + output.tail && told.output_omitted_bytes == Some(output.omitted_bytes),
        told.original_token_count is Some,
        context.approximate_tokens <= usize::MAX ==> told.original_token_count->0
            == context.approximate_tokens,
        context.approximate_tokens > usize::MAX ==> told.original_token_count->0 == usize::MAX,
{
}

} // verus!
