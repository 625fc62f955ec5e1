//! Event-driven coordination for long-running exec sessions.
//!
//! A wait names a session, the events that may complete it, and an optional
//! deadline of its own.  Process exit always completes a wait, because an
//! exited session cannot satisfy a later condition.
use vstd::prelude::*;

use crate::clock::Moment;
use crate::interaction::tells;
use crate::interaction::no_output;
use crate::interaction::ExecCommandToolOutput;
use crate::interaction::ProcessInteractionResult;
use crate::interaction::ProcessInteractionTimeout;
use crate::interaction::ProcessWaitReason;
use crate::interaction::ResponseContext;
use crate::text::texts;
use crate::tool_spec::choice_property;
use crate::tool_spec::integer_property;
use crate::tool_spec::number_property;
use crate::tool_spec::property_of;
use crate::tool_spec::property_views;
use crate::tool_spec::saffron_tool;
use crate::tool_spec::text_property;
use crate::tool_spec::KindView;
use crate::tool_spec::ObjectSchema;
use crate::tool_spec::Property;
use crate::tool_spec::SchemaView;
use crate::tool_spec::ToolName;
use crate::tool_spec::ToolSpec;
use crate::tool_spec::ToolSpecView;
use crate::tool_spec::NAMESPACE;

verus! {

/// The name of the tool.
pub const AWAIT_TOOL_NAME: &'static str = "await_exec";

/// What the namespace is for, as far as this tool is concerned.
pub const AWAIT_NAMESPACE_DESCRIPTION: &'static str =
    "Saffron extensions for coordinating long-running exec_command sessions.";

/// What a model is told of the tool.
pub const AWAIT_TOOL_DESCRIPTION: &'static str =
    "Wait for output or exit from a running exec_command session. Use this instead of empty write_stdin calls when the command needs no input. Pass exec_command's session_id. By default, buffered or new output and exit resume the call; return_on=exit buffers output until exit. Set timeout_ms only for an independent deadline; a timeout does not terminate the command. Returned output is consumed and not repeated. Never call await_exec and write_stdin concurrently for the same session. If session_id is returned, call await_exec again or use write_stdin to interact. Invalid or stale sessions and process or approval failures are errors; start a new exec_command session instead of retrying a stale ID. This tool does not start commands, send input, or terminate them.";

/// What a model is told of the tool's response.
pub const AWAIT_OUTPUT_DESCRIPTION: &'static str =
    "One bounded chunk of process output plus the event and process state observed by this wait.";

/// The most tokens that a response takes where the caller asks for no limit.
pub const DEFAULT_MAX_OUTPUT_TOKENS: usize = 10_000;

/// Selects which process events may complete a wait.
#[derive(Clone, Copy, Debug, PartialEq, Eq, Structural)]
pub enum ReturnOn {
    /// Return when output is available or the process exits.
    OutputOrExit,
    /// Retain intermediate output and return on process exit or timeout.
    Exit,
}

/// The events that a model names.
pub open spec fn event_choices() -> Seq<Seq<char>> {
    seq!["output_or_exit"@, "exit"@]
}

/// The reasons that a model is told.
pub open spec fn reason_choices() -> Seq<Seq<char>> {
    seq!["output"@, "exit"@, "timeout"@]
}

/// What a model is told of the arguments.
pub open spec fn await_parameters() -> SchemaView {
    SchemaView {
        description: None,
        properties: seq![
            property_of(
                "max_output_tokens",
                KindView::Integer,
                "Non-negative maximum tokens of accumulated process output to return. Defaults to 10000 and may be reduced by model policy; excess middle output is marked as omitted."@,
            ),
            property_of(
                "return_on",
                KindView::OneOf(event_choices()),
                "Event to wait for. output_or_exit (default) resumes on new output or exit. exit keeps buffering output and resumes only when the process exits or timeout_ms elapses."@,
            ),
            property_of(
                "session_id",
                KindView::Integer,
                "Signed 32-bit session ID returned by exec_command for a command that is still running. Reuse the session_id returned by this tool to wait again."@,
            ),
            property_of(
                "timeout_ms",
                KindView::Integer,
                "Independent wait deadline in milliseconds (up to 4294967295). Omit unless the agent must resume without output or exit. A timeout does not terminate the process; required cleanup may finish afterward."@,
            ),
        ],
        required: Some(seq!["session_id"@]),
    }
}

/// What a model is told of the response.
pub open spec fn await_output() -> SchemaView {
    SchemaView {
        description: Some(AWAIT_OUTPUT_DESCRIPTION@),
        properties: seq![
            property_of(
                "chunk_id",
                KindView::Text,
                "Identifier for this response's output chunk, which may be empty."@,
            ),
            property_of(
                "exit_code",
                KindView::Integer,
                "Numeric process status when one is available after exit; otherwise omitted."@,
            ),
            property_of(
                "original_token_count",
                KindView::Integer,
                "Approximate token count of output before response truncation."@,
            ),
            property_of(
                "output",
                KindView::Text,
                "Output consumed by this call since the preceding process interaction. In exit mode it includes retained intermediate output, subject to the output limit."@,
            ),
            property_of(
                "reason",
                KindView::OneOf(reason_choices()),
                "Why this call returned. exit takes precedence if termination is observed while resolving another wake event."@,
            ),
            property_of(
                "session_id",
                KindView::Integer,
                "Reusable session ID when the process is still running. Omitted after exit."@,
            ),
            property_of(
                "wall_time_seconds",
                KindView::Number,
                "Elapsed wall time for this operation, including same-session access and required lifecycle cleanup, in seconds."@,
            ),
        ],
        required: Some(
            seq![
                "reason"@,
                "chunk_id"@,
                "wall_time_seconds"@,
                "original_token_count"@,
                "output"@,
            ],
        ),
    }
}

/// What a model is told of the tool.
pub open spec fn await_spec() -> ToolSpecView {
    ToolSpecView {
        namespace: NAMESPACE@,
        namespace_description: AWAIT_NAMESPACE_DESCRIPTION@,
        name: AWAIT_TOOL_NAME@,
        description: AWAIT_TOOL_DESCRIPTION@,
        parameters: await_parameters(),
        output: Some(await_output()),
    }
}

/// The texts of literals, as strings.
fn owned_texts(literals: &[&'static str]) -> (owned: Vec<String>)
    ensures
        owned.len() == literals.len(),
        forall|k: int| 0 <= k < literals.len() ==> #[trigger] owned@[k]@ == literals@[k]@,
{
    let mut owned: Vec<String> = Vec::new();
    let mut i: usize = 0;
    while i < literals.len()
        invariant
            i <= literals.len(),
            owned.len() == i,
            forall|k: int| 0 <= k < i ==> #[trigger] owned@[k]@ == literals@[k]@,
        decreases literals.len() - i,
    {
        owned.push(literals[i].to_string());
        i += 1;
    }
    owned
}

/// Describes the arguments.
fn create_parameters() -> (parameters: ObjectSchema)
    ensures
        parameters@ == await_parameters(),
{
    let choices: Vec<String> = owned_texts(&["output_or_exit", "exit"]);
    let required: Vec<String> = owned_texts(&["session_id"]);
    let mut properties: Vec<Property> = Vec::new();
    proof {
        assert(texts(choices@) =~= event_choices());
    }
    properties.push(
        integer_property(
            "max_output_tokens",
            "Non-negative maximum tokens of accumulated process output to return. Defaults to 10000 and may be reduced by model policy; excess middle output is marked as omitted.",
        ),
    );
    properties.push(
        choice_property(
            "return_on",
            choices,
            "Event to wait for. output_or_exit (default) resumes on new output or exit. exit keeps buffering output and resumes only when the process exits or timeout_ms elapses.",
        ),
    );
    properties.push(
        integer_property(
            "session_id",
            "Signed 32-bit session ID returned by exec_command for a command that is still running. Reuse the session_id returned by this tool to wait again.",
        ),
    );
    properties.push(
        integer_property(
            "timeout_ms",
            "Independent wait deadline in milliseconds (up to 4294967295). Omit unless the agent must resume without output or exit. A timeout does not terminate the process; required cleanup may finish afterward.",
        ),
    );
    proof {
        assert(property_views(properties@) =~= await_parameters().properties);
        assert(texts(required@) =~= await_parameters().required->0);
    }
    ObjectSchema { description: None, properties, required: Some(required) }
}

/// Describes the response.
fn create_output() -> (output: ObjectSchema)
    ensures
        output@ == await_output(),
{
    let choices: Vec<String> = owned_texts(&["output", "exit", "timeout"]);
    let required: Vec<String> = owned_texts(
        &["reason", "chunk_id", "wall_time_seconds", "original_token_count", "output"],
    );
    let mut properties: Vec<Property> = Vec::new();
    proof {
        assert(texts(choices@) =~= reason_choices());
    }
    properties.push(
        text_property(
            "chunk_id",
            "Identifier for this response's output chunk, which may be empty.",
        ),
    );
    properties.push(
        integer_property(
            "exit_code",
            "Numeric process status when one is available after exit; otherwise omitted.",
        ),
    );
    properties.push(
        integer_property(
            "original_token_count",
            "Approximate token count of output before response truncation.",
        ),
    );
    properties.push(
        text_property(
            "output",
            "Output consumed by this call since the preceding process interaction. In exit mode it includes retained intermediate output, subject to the output limit.",
        ),
    );
    properties.push(
        choice_property(
            "reason",
            choices,
            "Why this call returned. exit takes precedence if termination is observed while resolving another wake event.",
        ),
    );
    properties.push(
        integer_property(
            "session_id",
            "Reusable session ID when the process is still running. Omitted after exit.",
        ),
    );
    properties.push(
        number_property(
            "wall_time_seconds",
            "Elapsed wall time for this operation, including same-session access and required lifecycle cleanup, in seconds.",
        ),
    );
    proof {
        assert(property_views(properties@) =~= await_output().properties);
        assert(texts(required@) =~= await_output().required->0);
    }
    ObjectSchema {
        description: Some(AWAIT_OUTPUT_DESCRIPTION.to_string()),
        properties,
        required: Some(required),
    }
}

/// Declares the operational contract presented to another agent.
pub fn create_tool_spec() -> (spec: ToolSpec)
    ensures
        spec@ == await_spec(),
{
    ToolSpec {
        namespace: NAMESPACE.to_string(),
        namespace_description: AWAIT_NAMESPACE_DESCRIPTION.to_string(),
        name: AWAIT_TOOL_NAME.to_string(),
        description: AWAIT_TOOL_DESCRIPTION.to_string(),
        parameters: create_parameters(),
        output: Some(create_output()),
    }
}

/// The name of the tool within its namespace.
pub fn await_tool_name() -> (name: ToolName)
    ensures
        name.namespace@ == NAMESPACE@,
        name.name@ == AWAIT_TOOL_NAME@,
{
    saffron_tool(AWAIT_TOOL_NAME)
}

/// Validated arguments for one wait on an existing session.
#[derive(Clone, Copy, Debug, PartialEq, Eq, Structural)]
pub struct AwaitExecArgs {
    /// Session identifier returned by `exec_command`.
    pub session_id: i32,
    /// Events that may complete the wait.
    pub return_on: ReturnOn,
    /// Optional independent deadline for this wait, in milliseconds.
    pub timeout_ms: Option<u32>,
    /// Requested response budget before the model policy applies its cap.
    pub max_output_tokens: Option<usize>,
}

/// The sentence that refuses a timeout of zero.
pub const ZERO_TIMEOUT: &'static str = "timeout_ms must be greater than zero when provided";

/// The sentence that refuses a call that is no function call.
pub const UNSUPPORTED_PAYLOAD: &'static str = "await_exec handler received unsupported payload";

/// Complete input for one wait on an existing session.
///
/// The deadline covers both same-session serialization and the selected event
/// wait; without one the wait is indefinite.  Required lifecycle cleanup may
/// complete after the deadline.
#[derive(Clone, Copy, Debug, PartialEq, Eq, Structural)]
pub struct AwaitExecRequest {
    pub process_id: i32,
    pub return_on: ReturnOn,
    pub deadline: Option<Moment>,
    pub max_output_tokens: Option<usize>,
}

/// The deadline of a wait that started at `started_at`.
pub open spec fn deadline_after(started_at: Moment, timeout_ms: Option<u32>) -> Option<Moment> {
    match timeout_ms {
        Some(timeout_ms) => Some(
            Moment { nanos: (started_at.nanos + timeout_ms * 1_000_000) as u128 },
        ),
        None => None,
    }
}

/// Makes the request of a wait that starts at `started_at`.
pub fn await_request(args: AwaitExecArgs, started_at: Moment) -> (request: Result<
    AwaitExecRequest,
    &'static str,
>)
    requires
        started_at.nanos + u32::MAX * 1_000_000 <= u128::MAX,
    ensures
        (match request {
            Ok(request) => args.timeout_ms != Some(0u32) && request == (AwaitExecRequest {
                process_id: args.session_id,
                return_on: args.return_on,
                deadline: deadline_after(started_at, args.timeout_ms),
                max_output_tokens: args.max_output_tokens,
            }),
            Err(message) => args.timeout_ms == Some(0u32) && message@ == ZERO_TIMEOUT@,
        }),
{
    let deadline: Option<Moment> = match args.timeout_ms {
        Some(timeout_ms) => {
            if timeout_ms == 0 {
                return Err(ZERO_TIMEOUT);
            }
            Some(Moment { nanos: started_at.nanos + timeout_ms as u128 * 1_000_000 })
        },
        None => None,
    };
    Ok(
        AwaitExecRequest {
            process_id: args.session_id,
            return_on: args.return_on,
            deadline,
            max_output_tokens: args.max_output_tokens,
        },
    )
}

/// Model-visible reason that a wait returned.
#[derive(Clone, Copy, Debug, PartialEq, Eq, Structural)]
pub enum WakeReason {
    Output,
    Exit,
    Timeout,
}

/// The name of a reason.
pub open spec fn reason_name(reason: WakeReason) -> Seq<char> {
    match reason {
        WakeReason::Output => "output"@,
        WakeReason::Exit => "exit"@,
        WakeReason::Timeout => "timeout"@,
    }
}

impl WakeReason {
    /// The name of this reason.
    pub fn name(self) -> (name: &'static str)
        ensures
            name@ == reason_name(self),
            reason_choices().contains(name@),
    {
        proof {
            assert(reason_choices()[0] == "output"@);
            assert(reason_choices()[1] == "exit"@);
            assert(reason_choices()[2] == "timeout"@);
        }
        match self {
            WakeReason::Output => "output",
            WakeReason::Exit => "exit",
            WakeReason::Timeout => "timeout",
        }
    }
}

/// The final reason of a wait: exit, whenever termination was observed, even
/// if output or the deadline was observed first.
pub open spec fn final_reason(observed: ProcessWaitReason, has_exited: bool) -> WakeReason {
    if has_exited {
        WakeReason::Exit
    } else {
        match observed {
            ProcessWaitReason::Output => WakeReason::Output,
            ProcessWaitReason::Exit => WakeReason::Exit,
            ProcessWaitReason::Timeout => WakeReason::Timeout,
        }
    }
}

/// Canonical output plus the final wake reason.
#[derive(Debug)]
pub struct AwaitExecResult {
    pub reason: WakeReason,
    pub output: ExecCommandToolOutput,
}

/// Concludes a wait whose interaction was finished.
pub fn conclude_await(
    observed: ProcessWaitReason,
    result: ProcessInteractionResult,
    context: ResponseContext,
) -> (concluded: AwaitExecResult)
    ensures
        concluded.reason == final_reason(observed, result.outcome.process_id is None),
        tells(concluded.output, result.outcome, result.output@, context),
{
    let reason: WakeReason = if result.has_exited() {
        WakeReason::Exit
    } else {
        match observed {
            ProcessWaitReason::Output => WakeReason::Output,
            ProcessWaitReason::Exit => WakeReason::Exit,
            ProcessWaitReason::Timeout => WakeReason::Timeout,
        }
    };
    AwaitExecResult { reason, output: result.into_tool_output(context) }
}

/// Concludes a wait whose interaction was not to be had in time.
pub fn conclude_timeout(timeout: ProcessInteractionTimeout, context: ResponseContext) -> (concluded:
    AwaitExecResult)
    ensures
        concluded.reason == WakeReason::Timeout,
        tells(concluded.output, timeout.outcome, no_output(), context),
{
    AwaitExecResult { reason: WakeReason::Timeout, output: timeout.into_tool_output(context) }
}

/// The most tokens that a response takes.  A call may request less output, but
/// it cannot raise the ceiling of the model's policy.
pub open spec fn token_limit(requested: Option<usize>, policy_budget: usize) -> usize {
    let wanted = match requested {
        Some(requested) => requested,
        None => DEFAULT_MAX_OUTPUT_TOKENS,
    };
    if wanted <= policy_budget {
        wanted
    } else {
        policy_budget
    }
}

/// The most tokens that a response takes.
pub fn response_token_limit(requested: Option<usize>, policy_budget: usize) -> (limit: usize)
    ensures
        limit == token_limit(requested, policy_budget),
{
    let wanted: usize = match requested {
        Some(requested) => requested,
        None => DEFAULT_MAX_OUTPUT_TOKENS,
    };
    if wanted <= policy_budget {
        wanted
    } else {
        policy_budget
    }
}

/// The sentence that reports a result without a token count.
pub const MISSING_TOKEN_COUNT: &'static str = "await_exec result omitted original token count";

/// The response to a model.
///
/// `reason` identifies why the call returned.  The optional process fields
/// describe the state observed afterward: `session_id` is there only while the
/// process remains available for another interaction, and `exit_code` where a
/// numeric status was obtained.
#[derive(Debug)]
pub struct AwaitExecResponse {
    pub reason: WakeReason,
    pub chunk_id: String,
    pub wall_time_nanos: u128,
    pub exit_code: Option<i32>,
    pub session_id: Option<i32>,
    pub original_token_count: usize,
    pub output: String,
}

/// Renders the policy-bounded response, given the output truncated to
/// [`response_token_limit`].
pub fn await_response(result: &AwaitExecResult, truncated_output: String) -> (response: Result<
    AwaitExecResponse,
    &'static str,
>)
    ensures
        (match response {
            Ok(response) => {
                &&& result.output.original_token_count == Some(response.original_token_count)
                &&& response.reason == result.reason
                &&& response.chunk_id@ == result.output.chunk_id@
                &&& response.wall_time_nanos == result.output.wall_time_nanos
                &&& response.exit_code == result.output.exit_code
                &&& response.session_id == result.output.process_id
                &&& response.output@ == truncated_output@
            },
            Err(message) => result.output.original_token_count is None && message@
                == MISSING_TOKEN_COUNT@,
        }),
{
    match result.output.original_token_count {
        None => Err(MISSING_TOKEN_COUNT),
        Some(original_token_count) => Ok(
            AwaitExecResponse {
                reason: result.reason,
                chunk_id: result.output.chunk_id.clone(),
                wall_time_nanos: result.output.wall_time_nanos,
                exit_code: result.output.exit_code,
                session_id: result.output.process_id,
                original_token_count,
                output: truncated_output,
            },
        ),
    }
}

/// A wait tells of an exit exactly if the process was seen to have exited when
/// the interaction was finished, whatever ended the wait.
pub proof fn exit_is_told_exactly_when_observed(observed: ProcessWaitReason, has_exited: bool)
    requires
        observed == ProcessWaitReason::Exit ==> has_exited,
    ensures
        final_reason(observed, has_exited) == WakeReason::Exit <==> has_exited,
{
}

/// The reason that is told is the one observed: of a process that has not
/// exited, output and a timeout are told as such.  Of one that has exited, the
/// exit is told, whatever else was observed.
pub proof fn observed_reason_is_told(observed: ProcessWaitReason)
    ensures
        final_reason(observed, false) == WakeReason::Output <==> observed
            == ProcessWaitReason::Output,
        final_reason(observed, false) == WakeReason::Timeout <==> observed
            == ProcessWaitReason::Timeout,
        final_reason(observed, false) == WakeReason::Exit <==> observed
            == ProcessWaitReason::Exit,
        final_reason(observed, true) == WakeReason::Exit,
{
}

/// At most as many tokens are told as were asked for, or ten thousand where
/// none were, and at most as many as the policy allows; and no fewer than one
/// of the two.
pub proof fn token_limit_is_the_lesser(requested: Option<usize>, policy_budget: usize)
    ensures
        ({
            let limit = token_limit(requested, policy_budget);
            let wanted = if requested is Some {
                requested->0
            } else {
                10_000
            };
            &&& limit <= wanted
            &&& limit <= policy_budget
            &&& limit == wanted || limit == policy_budget
        }),
{
}

/// A wait ends so many milliseconds after its start as were asked for, and not
/// by itself where none were.
pub proof fn wait_ends_after_its_milliseconds(started_at: Moment, timeout_ms: u32)
    requires
        started_at.nanos + u32::MAX * 1_000_000 <= u128::MAX,
    ensures
        deadline_after(started_at, None) is None,
        deadline_after(started_at, Some(timeout_ms)) is Some,
        deadline_after(started_at, Some(timeout_ms))->0.nanos - started_at.nanos == timeout_ms
            * 1000 * 1000,
{
}

/// The names of the reasons are those that the model is told of, each its own.
pub proof fn reasons_are_told_by_name(reason: WakeReason, other: WakeReason)
    ensures
        reason_choices().contains(reason_name(reason)),
        reason_name(reason) == reason_name(other) <==> reason == other,
        reason_name(WakeReason::Output) == "output"@,
        reason_name(WakeReason::Exit) == "exit"@,
        reason_name(WakeReason::Timeout) == "timeout"@,
{
    reveal_strlit("output");
    reveal_strlit("exit");
    reveal_strlit("timeout");
    assert("output"@.len() == 6 && "exit"@.len() == 4 && "timeout"@.len() == 7);
    let choices = reason_choices();
    assert(choices[0] == "output"@ && choices[1] == "exit"@ && choices[2] == "timeout"@);
}

} // verus!
