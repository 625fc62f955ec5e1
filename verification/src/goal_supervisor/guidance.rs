//! Persistent root-thread guidance for durable goal execution.
use vstd::prelude::*;

use crate::json::member_text;
use crate::json::object_with_text;
use crate::json::text_members;
use crate::text::ends_with;
use crate::text::is_white;
use crate::text::leading_white;
use crate::text::optional_chars;
use crate::text::same_text;
use crate::text::starts_with;
use crate::text::trailing_white;
use crate::text::trim_end;
use crate::text::trim_start;
use crate::text::without_leading_white;
use crate::text::without_trailing_white;

verus! {

/// Names the section of the world state that holds the guidance.
pub const SECTION_ID: &'static str = "saffron_goal_supervisor";

/// Begins a fragment of guidance.
pub const START_MARKER: &'static str = "<saffron_goal_supervisor>";

/// Ends a fragment of guidance.
pub const END_MARKER: &'static str = "</saffron_goal_supervisor>";

/// Began a fragment of turn-local guidance.
pub const LEGACY_START_MARKER: &'static str = "<saffron_goal_waiting>";

/// Ended a fragment of turn-local guidance.
pub const LEGACY_END_MARKER: &'static str = "</saffron_goal_waiting>";

/// Introduces guidance that replaces other guidance.
pub const REPLACEMENT_NOTICE: &'static str =
    "These goal-supervisor instructions replace the previously provided instructions.";

/// Takes guidance back.
pub const REMOVAL_NOTICE: &'static str =
    "The previously provided goal-supervisor instructions no longer apply.";

/// The guidance.
pub const INSTRUCTIONS: &'static str = "## Goal supervision\n\nIf this turn requests durable continuation, call `create_goal` before claiming the goal is active. An active goal continues autonomously. Treat supervisor follow-ups as task instructions. Resolve optional clarification and reversible choices with a supported default and continue. Only indispensable authority or information may enter the blocked-goal audit. Waiting for user input is not a snooze condition; snooze only for a future boundary or an already-running external process when no useful work can proceed.";

/// The member of a snapshot that holds the guidance.
pub const SNAPSHOT_KEY: &'static str = "instructions";

/// The role in whose name guidance is given.
pub const GUIDANCE_ROLE: &'static str = "developer";

/// What decides whether a thread gets guidance.
#[derive(Clone, Copy, Debug, PartialEq, Eq, Structural)]
pub struct GoalGuidanceState {
    pub is_root: bool,
    pub goals_enabled: bool,
}

impl GoalGuidanceState {
    /// The state of a thread that starts.
    pub fn at_thread_start(is_non_root_agent: bool, goals_enabled: bool) -> (state: Self)
        ensures
            state == (GoalGuidanceState { is_root: !is_non_root_agent, goals_enabled }),
    {
        GoalGuidanceState { is_root: !is_non_root_agent, goals_enabled }
    }

    /// The state of a thread whose configuration changes.  A thread that was
    /// not seen to start is not taken for a root.
    pub fn after_config_change(previous: Option<GoalGuidanceState>, goals_enabled: bool) -> (state:
        Self)
        ensures
            state == (GoalGuidanceState {
                is_root: previous is Some && previous->0.is_root,
                goals_enabled,
            }),
    {
        GoalGuidanceState {
            is_root: match previous {
                Some(previous) => previous.is_root,
                None => false,
            },
            goals_enabled,
        }
    }

    /// Whether the thread gets guidance.
    pub fn enabled(self) -> (enabled: bool)
        ensures
            enabled == (self.is_root && self.goals_enabled),
    {
        self.is_root && self.goals_enabled
    }
}

/// What the model was told of a section before.
#[derive(Debug)]
pub enum PreviousWorldStateSection<'a> {
    /// Nothing.
    Absent,
    /// Something that is no longer known.
    Unknown,
    /// What this snapshot says.
    Known(&'a serde_json::Value),
}

/// A fragment of the world state, for the model.
#[derive(Debug)]
pub struct RenderedWorldStateFragment {
    role: String,
    body: String,
}

/// The mathematical content of a fragment.
pub struct FragmentView {
    pub role: Seq<char>,
    pub body: Seq<char>,
}

impl View for RenderedWorldStateFragment {
    type V = FragmentView;

    closed spec fn view(&self) -> FragmentView {
        FragmentView { role: self.role@, body: self.body@ }
    }
}

/// The text of a fragment between its markers.
pub open spec fn marked(body: Seq<char>) -> Seq<char> {
    START_MARKER@ + body + END_MARKER@
}

impl RenderedWorldStateFragment {
    /// The role in whose name the fragment is given.
    pub fn role(&self) -> (role: &str)
        ensures
            role@ == self@.role,
    {
        self.role.as_str()
    }

    /// The markers of the fragment.
    pub fn markers(&self) -> (markers: (&'static str, &'static str))
        ensures
            markers.0@ == START_MARKER@,
            markers.1@ == END_MARKER@,
    {
        (START_MARKER, END_MARKER)
    }

    /// The text of the fragment, without its markers.
    pub fn body(&self) -> (body: &str)
        ensures
            body@ == self@.body,
    {
        self.body.as_str()
    }
}

/// The text of a fragment, with its markers.
pub fn rendered(fragment: &RenderedWorldStateFragment) -> (text: String)
    ensures
        text@ == marked(fragment@.body),
{
    let mut text: String = START_MARKER.to_string();
    text.append(fragment.body.as_str());
    text.append(END_MARKER);
    text
}

/// What the model is told, given the guidance it should have and what it was
/// told before.  `before` is `None` if that is not known.
pub open spec fn guidance_change(
    instructions: Option<Seq<char>>,
    before: Option<Option<Seq<char>>>,
) -> Option<Seq<char>> {
    if before == Some(instructions) {
        None
    } else {
        Some(
            "\n"@ + (match instructions {
                Some(instructions) => if before == Some(None::<Seq<char>>) {
                    instructions
                } else {
                    REPLACEMENT_NOTICE@ + "\n\n"@ + instructions
                },
                None => REMOVAL_NOTICE@,
            }) + "\n"@,
        )
    }
}

/// Whether two optional texts are the same.
fn same_optional(a: Option<&str>, b: Option<&str>) -> (same: bool)
    ensures
        same == (optional_chars(a) == optional_chars(b)),
{
    match (a, b) {
        (Some(a), Some(b)) => same_text(a, b),
        (None, None) => true,
        (Some(_), None) => false,
        (None, Some(_)) => false,
    }
}

/// Tells the model what changed, given the guidance it should have and what it
/// was told before.  `before` is `None` if that is not known.
pub fn guidance_diff(instructions: Option<&str>, before: Option<Option<&str>>) -> (fragment: Option<
    RenderedWorldStateFragment,
>)
    ensures
        ({
            let expected = guidance_change(
                optional_chars(instructions),
                match before {
                    Some(before) => Some(optional_chars(before)),
                    None => None,
                },
            );
            match fragment {
                Some(fragment) => fragment@.role == GUIDANCE_ROLE@ && expected == Some(
                    fragment@.body,
                ),
                None => expected is None,
            }
        }),
{
    let unchanged: bool = match before {
        Some(before) => same_optional(before, instructions),
        None => false,
    };
    if unchanged {
        return None;
    }
    let was_absent: bool = match before {
        Some(before) => before.is_none(),
        None => false,
    };
    let mut body: String = "\n".to_string();
    match instructions {
        Some(instructions) => {
            if !was_absent {
                body.append(REPLACEMENT_NOTICE);
                body.append("\n\n");
            }
            body.append(instructions);
            proof {
                assert("\n"@ + REPLACEMENT_NOTICE@ + "\n\n"@ + instructions@ =~= "\n"@ + (
                REPLACEMENT_NOTICE@ + "\n\n"@ + instructions@));
            }
        },
        None => {
            body.append(REMOVAL_NOTICE);
        },
    }
    body.append("\n");
    Some(RenderedWorldStateFragment { role: GUIDANCE_ROLE.to_string(), body })
}

/// What a snapshot says the model was told.
pub open spec fn snapshot_guidance(snapshot: serde_json::Value) -> Option<Seq<char>> {
    if text_members(snapshot).dom().contains(SNAPSHOT_KEY@) {
        Some(text_members(snapshot)[SNAPSHOT_KEY@])
    } else {
        None
    }
}

/// What the model was told before, as far as it is known.
pub open spec fn told_before(previous: PreviousWorldStateSection<'_>) -> Option<
    Option<Seq<char>>,
> {
    match previous {
        PreviousWorldStateSection::Absent => Some(None),
        PreviousWorldStateSection::Unknown => None,
        PreviousWorldStateSection::Known(snapshot) => Some(snapshot_guidance(*snapshot)),
    }
}

/// Reads what a snapshot says the model was told.
pub fn snapshot_instructions(snapshot: &serde_json::Value) -> (instructions: Option<String>)
    ensures
        (match instructions {
            Some(instructions) => snapshot_guidance(*snapshot) == Some(instructions@),
            None => snapshot_guidance(*snapshot) is None,
        }),
{
    member_text(snapshot, SNAPSHOT_KEY)
}

/// Tells the model what changed since a previous state of the section.
pub fn render_guidance_diff(
    instructions: Option<&str>,
    previous: PreviousWorldStateSection<'_>,
) -> (fragment: Option<RenderedWorldStateFragment>)
    ensures
        ({
            let expected = guidance_change(optional_chars(instructions), told_before(previous));
            match fragment {
                Some(fragment) => fragment@.role == GUIDANCE_ROLE@ && expected == Some(
                    fragment@.body,
                ),
                None => expected is None,
            }
        }),
{
    match previous {
        PreviousWorldStateSection::Absent => guidance_diff(instructions, Some(None)),
        PreviousWorldStateSection::Unknown => guidance_diff(instructions, None),
        PreviousWorldStateSection::Known(snapshot) => match snapshot_instructions(snapshot) {
            Some(before) => guidance_diff(instructions, Some(Some(before.as_str()))),
            None => guidance_diff(instructions, Some(None)),
        },
    }
}

/// The guidance that a thread should have.
pub open spec fn guidance_for(enabled: bool) -> Option<Seq<char>> {
    if enabled {
        Some(INSTRUCTIONS@)
    } else {
        None
    }
}

/// The section of the world state that holds the guidance.
#[derive(Clone, Copy, Debug)]
pub struct GuidanceSection {
    pub enabled: bool,
}

/// The section of a thread.
pub fn guidance_section(enabled: bool) -> (section: GuidanceSection)
    ensures
        section.enabled == enabled,
{
    GuidanceSection { enabled }
}

impl GuidanceSection {
    /// The guidance that the thread should have.
    fn instructions(&self) -> (instructions: Option<&'static str>)
        ensures
            optional_chars(instructions) == guidance_for(self.enabled),
    {
        if self.enabled {
            Some(INSTRUCTIONS)
        } else {
            None
        }
    }

    /// What is recorded once the model knows the guidance.
    pub fn snapshot(&self) -> (snapshot: serde_json::Value)
        ensures
            snapshot_guidance(snapshot) == guidance_for(self.enabled),
            text_members(snapshot).dom().subset_of(set![SNAPSHOT_KEY@]),
    {
        object_with_text(SNAPSHOT_KEY, self.instructions())
    }

    /// Tells the model what changed since a previous state of the section.
    pub fn render_diff(&self, previous: PreviousWorldStateSection<'_>) -> (fragment: Option<
        RenderedWorldStateFragment,
    >)
        ensures
            ({
                let expected = guidance_change(guidance_for(self.enabled), told_before(previous));
                match fragment {
                    Some(fragment) => fragment@.role == GUIDANCE_ROLE@ && expected == Some(
                        fragment@.body,
                    ),
                    None => expected is None,
                }
            }),
    {
        render_guidance_diff(self.instructions(), previous)
    }

    /// Whether a message is guidance of this or of an earlier form.
    pub fn matches_legacy_fragment(&self, role: &str, text: &str) -> (matches: bool)
        ensures
            matches == is_legacy_guidance(role@, text@),
    {
        matches_legacy_guidance(role, text)
    }

    /// Whether a message is guidance of this form.
    pub fn matches_retained_fragment(&self, role: &str, text: &str) -> (matches: bool)
        ensures
            matches == is_guidance(role@, text@),
    {
        matches_guidance(role, text)
    }
}

/// Whether a message is given as a developer and, but for whitespace around
/// it, stands between markers.
pub open spec fn is_marked(
    role: Seq<char>,
    text: Seq<char>,
    start: Seq<char>,
    end: Seq<char>,
) -> bool {
    role == GUIDANCE_ROLE@ && start.is_prefix_of(trim_start(text)) && end.is_suffix_of(
        trim_end(text),
    )
}

/// Whether a message is guidance.
pub open spec fn is_guidance(role: Seq<char>, text: Seq<char>) -> bool {
    is_marked(role, text, START_MARKER@, END_MARKER@)
}

/// Whether a message is guidance of this or of an earlier form.
pub open spec fn is_legacy_guidance(role: Seq<char>, text: Seq<char>) -> bool {
    is_guidance(role, text) || is_marked(role, text, LEGACY_START_MARKER@, LEGACY_END_MARKER@)
}

/// Whether a message is guidance.
pub fn matches_guidance(role: &str, text: &str) -> (matches: bool)
    ensures
        matches == is_guidance(role@, text@),
{
    matches_marked_guidance(role, text, START_MARKER, END_MARKER)
}

/// Whether a message is guidance of this or of an earlier form.
pub fn matches_legacy_guidance(role: &str, text: &str) -> (matches: bool)
    ensures
        matches == is_legacy_guidance(role@, text@),
{
    matches_guidance(role, text) || matches_marked_guidance(
        role,
        text,
        LEGACY_START_MARKER,
        LEGACY_END_MARKER,
    )
}

/// Whether a message is given as a developer and, but for whitespace around
/// it, stands between markers.
pub fn matches_marked_guidance(role: &str, text: &str, start: &str, end: &str) -> (matches: bool)
    ensures
        matches == is_marked(role@, text@, start@, end@),
{
    same_text(role, GUIDANCE_ROLE) && starts_with(without_leading_white(text), start)
        && ends_with(without_trailing_white(text), end)
}

proof fn markers_are_not_white()
    ensures
        START_MARKER@.len() > 0 && !is_white(START_MARKER@[0]),
        END_MARKER@.len() > 0 && !is_white(END_MARKER@.last()),
        LEGACY_START_MARKER@.len() > 0 && !is_white(LEGACY_START_MARKER@[0]),
        LEGACY_END_MARKER@.len() > 0 && !is_white(LEGACY_END_MARKER@.last()),
        START_MARKER@.len() > 15 && START_MARKER@[14] == 's',
        LEGACY_START_MARKER@.len() > 15 && LEGACY_START_MARKER@[14] == 'w',
{
    reveal_strlit("<saffron_goal_supervisor>");
    reveal_strlit("</saffron_goal_supervisor>");
    reveal_strlit("<saffron_goal_waiting>");
    reveal_strlit("</saffron_goal_waiting>");
}

/// Text that begins and ends with other than whitespace is not trimmed.
proof fn nothing_to_trim(text: Seq<char>)
    requires
        text.len() > 0,
        !is_white(text[0]),
        !is_white(text.last()),
    ensures
        trim_start(text) == text,
        trim_end(text) == text,
{
    assert(leading_white(text) == 0);
    assert(trailing_white(text) == 0);
    assert(text.skip(0) =~= text);
    assert(text.take(text.len() as int) =~= text);
}

/// Guidance that was given is recognized, whatever it says.
pub proof fn given_guidance_is_recognized(body: Seq<char>)
    ensures
        is_guidance(GUIDANCE_ROLE@, marked(body)),
        is_legacy_guidance(GUIDANCE_ROLE@, marked(body)),
{
    markers_are_not_white();
    let text = marked(body);
    assert(text[0] == START_MARKER@[0]);
    assert(text.last() == END_MARKER@.last());
    nothing_to_trim(text);
    assert(text.subrange(0, START_MARKER@.len() as int) =~= START_MARKER@);
    assert(text.subrange(text.len() - END_MARKER@.len(), text.len() as int) =~= END_MARKER@);
}

/// Turn-local guidance is recognized as guidance of an earlier form, and is
/// not retained.
pub proof fn turn_local_guidance_is_replaced(body: Seq<char>)
    ensures
        ({
            let text = LEGACY_START_MARKER@ + body + LEGACY_END_MARKER@;
            is_legacy_guidance(GUIDANCE_ROLE@, text) && !is_guidance(GUIDANCE_ROLE@, text)
        }),
{
    markers_are_not_white();
    let text = LEGACY_START_MARKER@ + body + LEGACY_END_MARKER@;
    assert(text[0] == LEGACY_START_MARKER@[0]);
    assert(text.last() == LEGACY_END_MARKER@.last());
    nothing_to_trim(text);
    assert(text.subrange(0, LEGACY_START_MARKER@.len() as int) =~= LEGACY_START_MARKER@);
    assert(text.subrange(text.len() - LEGACY_END_MARKER@.len(), text.len() as int)
        =~= LEGACY_END_MARKER@);
    assert(text[14] == LEGACY_START_MARKER@[14]);
    if START_MARKER@.is_prefix_of(text) {
        assert(START_MARKER@[14] == text.subrange(0, START_MARKER@.len() as int)[14]);
    }
}

/// Guidance is given once: while the state it was given for is unchanged, the
/// model is told nothing.  Where it has changed, the model is told.
pub proof fn guidance_is_given_once(was_enabled: bool, is_enabled: bool)
    ensures
        guidance_change(guidance_for(is_enabled), Some(guidance_for(was_enabled))) is None
            <==> was_enabled == is_enabled,
{
}

} // verus!
