//! Model-facing action tools for a goal supervisor helper.
use vstd::prelude::*;

use crate::registry::RegisteredTool;
use crate::registry::ToolRegistry;
use crate::text::decimal;
use crate::text::decimal_text;
use crate::text::texts;
use crate::tool_spec::integer_property;
use crate::tool_spec::property_of;
use crate::tool_spec::property_views;
use crate::tool_spec::saffron_tool;
use crate::tool_spec::text_property;
use crate::tool_spec::KindView;
use crate::tool_spec::ObjectSchema;
use crate::tool_spec::Property;
use crate::tool_spec::PropertyView;
use crate::tool_spec::SchemaView;
use crate::tool_spec::ToolName;
use crate::tool_spec::ToolSpec;
use crate::tool_spec::ToolSpecView;
use crate::tool_spec::NAMESPACE;

verus! {

/// What the namespace is for.
pub const NAMESPACE_DESCRIPTION: &'static str =
    "Saffron extensions for long-running process and goal coordination.";

/// The longest time that a check-in can be snoozed: thirty days.
pub const MAX_SNOOZE_SECONDS: u64 = 2_592_000;

/// What a tool of a helper does.
#[derive(Clone, Copy, Debug, PartialEq, Eq, Structural)]
pub enum Kind {
    Followup,
    Snooze,
    Compact,
    Complete,
}

/// The name of a tool.
pub open spec fn kind_name(kind: Kind) -> Seq<char> {
    match kind {
        Kind::Followup => "supervisor_followup_parent"@,
        Kind::Snooze => "supervisor_snooze"@,
        Kind::Compact => "supervisor_compact_parent_context"@,
        Kind::Complete => "supervisor_close_self"@,
    }
}

/// The description of a tool.
pub open spec fn kind_description(kind: Kind) -> Seq<char> {
    match kind {
        Kind::Followup => {
            "Wake the supervised parent with one concrete next task. Use this when the active goal can make useful progress now."@
        },
        Kind::Snooze => {
            "Keep the active goal idle for a bounded interval, then run another supervisor check-in. Use this only when waiting is the next useful action."@
        },
        Kind::Compact => {
            "Request context compaction for the idle supervised parent. Use this only when context pressure is blocking useful progress."@
        },
        Kind::Complete => {
            "Mark the supervised active goal complete. Use this only when inherited evidence establishes that no required work remains."@
        },
    }
}

/// What a model is told of the delay of a snooze.
pub open spec fn delay_description() -> Seq<char> {
    "Whole seconds to a known scheduled boundary or a bounded, evidence-based recheck of an already-running non-human process, from 1 through "@
        + decimal(MAX_SNOOZE_SECONDS as nat) + "."@
}

/// What a model is told of the arguments of a tool.
pub open spec fn kind_parameters(kind: Kind) -> SchemaView {
    let (properties, required): (Seq<PropertyView>, Option<Seq<Seq<char>>>) = match kind {
        Kind::Followup => (
            seq![property_of(
                "message",
                KindView::Text,
                "Concrete next task and any evidence the parent needs to resume."@,
            )],
            Some(seq!["message"@]),
        ),
        Kind::Snooze => (
            seq![
                property_of("delay_seconds", KindView::Integer, delay_description()),
                property_of(
                    "reason",
                    KindView::Text,
                    "Concise observed non-human process or scheduled boundary that prevents useful parent action."@,
                ),
            ],
            Some(seq!["delay_seconds"@, "reason"@]),
        ),
        Kind::Compact => (Seq::empty(), None),
        Kind::Complete => (
            seq![property_of(
                "message",
                KindView::Text,
                "Optional completion summary to deliver to the parent."@,
            )],
            None,
        ),
    };
    SchemaView { description: None, properties, required }
}

/// What a model is told of a tool.
pub open spec fn kind_spec(kind: Kind) -> ToolSpecView {
    ToolSpecView {
        namespace: NAMESPACE@,
        namespace_description: NAMESPACE_DESCRIPTION@,
        name: kind_name(kind),
        description: kind_description(kind),
        parameters: kind_parameters(kind),
        output: None,
    }
}

impl Kind {
    /// The name of the tool.
    pub fn name(self) -> (name: &'static str)
        ensures
            name@ == kind_name(self),
    {
        match self {
            Kind::Followup => "supervisor_followup_parent",
            Kind::Snooze => "supervisor_snooze",
            Kind::Compact => "supervisor_compact_parent_context",
            Kind::Complete => "supervisor_close_self",
        }
    }

    /// The description of the tool.
    pub fn description(self) -> (description: &'static str)
        ensures
            description@ == kind_description(self),
    {
        match self {
            Kind::Followup => {
                "Wake the supervised parent with one concrete next task. Use this when the active goal can make useful progress now."
            },
            Kind::Snooze => {
                "Keep the active goal idle for a bounded interval, then run another supervisor check-in. Use this only when waiting is the next useful action."
            },
            Kind::Compact => {
                "Request context compaction for the idle supervised parent. Use this only when context pressure is blocking useful progress."
            },
            Kind::Complete => {
                "Mark the supervised active goal complete. Use this only when inherited evidence establishes that no required work remains."
            },
        }
    }

    /// The arguments of the tool.
    pub fn parameters(self) -> (parameters: ObjectSchema)
        ensures
            parameters@ == kind_parameters(self),
    {
        let mut properties: Vec<Property> = Vec::new();
        let mut names: Vec<String> = Vec::new();
        match self {
            Kind::Followup => {
                properties.push(
                    text_property(
                        "message",
                        "Concrete next task and any evidence the parent needs to resume.",
                    ),
                );
                names.push("message".to_string());
            },
            Kind::Snooze => {
                let mut delay: String =
                    "Whole seconds to a known scheduled boundary or a bounded, evidence-based recheck of an already-running non-human process, from 1 through ".to_string();
                delay.append(decimal_text(MAX_SNOOZE_SECONDS).as_str());
                delay.append(".");
                properties.push(integer_property("delay_seconds", delay.as_str()));
                properties.push(
                    text_property(
                        "reason",
                        "Concise observed non-human process or scheduled boundary that prevents useful parent action.",
                    ),
                );
                names.push("delay_seconds".to_string());
                names.push("reason".to_string());
            },
            Kind::Compact => {},
            Kind::Complete => {
                properties.push(
                    text_property(
                        "message",
                        "Optional completion summary to deliver to the parent.",
                    ),
                );
            },
        }
        let required: Option<Vec<String>> = match self {
            Kind::Followup => Some(names),
            Kind::Snooze => Some(names),
            Kind::Compact => None,
            Kind::Complete => None,
        };
        proof {
            let expected = kind_parameters(self);
            assert(property_views(properties@) =~= expected.properties);
            if required is Some {
                assert(texts(required->0@) =~= expected.required->0);
            }
        }
        ObjectSchema { description: None, properties, required }
    }

    /// What a model is told of the tool.
    pub fn spec(self) -> (spec: ToolSpec)
        ensures
            spec@ == kind_spec(self),
    {
        ToolSpec {
            namespace: NAMESPACE.to_string(),
            namespace_description: NAMESPACE_DESCRIPTION.to_string(),
            name: self.name().to_string(),
            description: self.description().to_string(),
            parameters: self.parameters(),
            output: None,
        }
    }

    /// The name of the tool within its namespace.
    pub fn tool_name(self) -> (name: ToolName)
        ensures
            name.namespace@ == NAMESPACE@,
            name.name@ == kind_name(self),
    {
        saffron_tool(self.name())
    }
}

/// The sentence that refuses a delay.
pub open spec fn delay_refusal() -> Seq<char> {
    "delay_seconds must be between 1 and "@ + decimal(MAX_SNOOZE_SECONDS as nat)
}

/// Checks the delay of a snooze.
pub fn check_delay(delay_seconds: u64) -> (checked: Result<(), String>)
    ensures
        (match checked {
            Ok(_) => 1 <= delay_seconds <= MAX_SNOOZE_SECONDS,
            Err(message) => !(1 <= delay_seconds <= MAX_SNOOZE_SECONDS) && message@
                == delay_refusal(),
        }),
{
    if 1 <= delay_seconds && delay_seconds <= MAX_SNOOZE_SECONDS {
        Ok(())
    } else {
        let mut message: String = "delay_seconds must be between 1 and ".to_string();
        message.append(decimal_text(MAX_SNOOZE_SECONDS).as_str());
        Err(message)
    }
}

/// The sentence that refuses a call that is no function call.
pub const UNSUPPORTED_PAYLOAD: &'static str = "supervisor action received an unsupported payload";

/// The action tools of a helper.
pub open spec fn helper_tools() -> Seq<RegisteredTool> {
    seq![
        RegisteredTool::Supervisor(Kind::Followup),
        RegisteredTool::Supervisor(Kind::Snooze),
        RegisteredTool::Supervisor(Kind::Compact),
        RegisteredTool::Supervisor(Kind::Complete),
    ]
}

/// Offers the action tools of a helper.
pub fn register(registry: &mut ToolRegistry)
    ensures
        final(registry)@ == old(registry)@ + helper_tools(),
{
    registry.add(RegisteredTool::Supervisor(Kind::Followup));
    registry.add(RegisteredTool::Supervisor(Kind::Snooze));
    registry.add(RegisteredTool::Supervisor(Kind::Compact));
    registry.add(RegisteredTool::Supervisor(Kind::Complete));
    proof {
        assert(registry@ =~= old(registry)@ + helper_tools());
    }
}

/// A snooze lasts at most thirty days, and a refusal says so.
pub proof fn snoozes_last_at_most_thirty_days()
    ensures
        MAX_SNOOZE_SECONDS == 30 * 24 * 60 * 60,
        delay_refusal() == "delay_seconds must be between 1 and "@ + decimal(2_592_000),
{
}

/// Each action of a helper has a name of its own, and asks for what it cannot
/// do without: a follow-up for its message, a snooze for its delay and its
/// reason, the others for nothing.
pub proof fn actions_ask_for_what_they_need(kind: Kind, other: Kind)
    ensures
        kind_name(kind) == kind_name(other) <==> kind == other,
        kind_parameters(Kind::Followup).required == Some(seq!["message"@]),
        kind_parameters(Kind::Snooze).required == Some(seq!["delay_seconds"@, "reason"@]),
        kind_parameters(Kind::Compact).required is None,
        kind_parameters(Kind::Complete).required is None,
        kind_spec(kind).name == kind_name(kind),
        kind_spec(kind).parameters == kind_parameters(kind),
{
    reveal_strlit("supervisor_followup_parent");
    reveal_strlit("supervisor_snooze");
    reveal_strlit("supervisor_compact_parent_context");
    reveal_strlit("supervisor_close_self");
    assert("supervisor_followup_parent"@.len() == 26);
    assert("supervisor_snooze"@.len() == 17);
    assert("supervisor_compact_parent_context"@.len() == 33);
    assert("supervisor_close_self"@.len() == 21);
}

} // verus!
