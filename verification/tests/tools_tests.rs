use saffrodex::await_exec::await_tool_name;
use saffrodex::await_exec::create_tool_spec;
use saffrodex::goal_edit::edit_tool_spec;
use saffrodex::goal_edit::Authority;
use saffrodex::goal_resume::register_root_if_available;
use saffrodex::goal_resume::resume_tool_spec;
use saffrodex::goal_supervisor::identity::helper_source;
use saffrodex::goal_supervisor::tools::check_delay;
use saffrodex::goal_supervisor::tools::Kind;
use saffrodex::goal_supervisor::tools::MAX_SNOOZE_SECONDS;
use saffrodex::ids::ThreadId;
use saffrodex::registration::register_tools;
use saffrodex::registry::RegisteredTool;
use saffrodex::registry::ToolRegistry;
use saffrodex::sources::SessionSource;
use saffrodex::sources::SubAgentSource;
use saffrodex::tool_spec::ObjectSchema;
use saffrodex::tool_spec::PropertyKind;
use saffrodex::tool_spec::NAMESPACE;

fn property_names(schema: &ObjectSchema) -> Vec<&str> {
    schema.properties.iter().map(|property| property.name.as_str()).collect()
}

fn offered(
    source: &SessionSource,
    is_hidden: bool,
    goals_enabled: bool,
    has_state: bool,
) -> Vec<String> {
    let mut registry = ToolRegistry::new();
    register_tools(source, is_hidden, goals_enabled, has_state, &mut registry);
    registry
        .tools()
        .iter()
        .map(|tool| {
            let name = tool.tool_name();
            format!("{}.{}", name.namespace, name.name)
        })
        .collect()
}

#[test]
fn action_specs_share_the_saffron_namespace() {
    let names = [Kind::Followup, Kind::Snooze, Kind::Compact, Kind::Complete]
        .into_iter()
        .map(|kind| {
            let spec = kind.spec();
            assert_eq!(spec.namespace, NAMESPACE);
            assert_eq!(spec.description, kind.description());
            spec.name
        })
        .collect::<Vec<_>>();

    assert_eq!(
        names,
        vec![
            "supervisor_followup_parent",
            "supervisor_snooze",
            "supervisor_compact_parent_context",
            "supervisor_close_self",
        ]
    );
}

#[test]
fn snooze_spec_requires_an_external_wait_reason() {
    let parameters = Kind::Snooze.spec().parameters;
    assert_eq!(property_names(&parameters), vec!["delay_seconds", "reason"]);
    assert!(matches!(parameters.properties[0].kind, PropertyKind::Integer));
    assert_eq!(
        parameters.properties[0].description,
        format!(
            "Whole seconds to a known scheduled boundary or a bounded, evidence-based recheck of an already-running non-human process, from 1 through {MAX_SNOOZE_SECONDS}."
        )
    );
    assert!(matches!(parameters.properties[1].kind, PropertyKind::Text));
    assert_eq!(
        parameters.properties[1].description,
        "Concise observed non-human process or scheduled boundary that prevents useful parent action."
    );
    assert_eq!(
        parameters.required,
        Some(vec!["delay_seconds".to_string(), "reason".to_string()])
    );
}

#[test]
fn other_action_specs_name_their_arguments() {
    let followup = Kind::Followup.parameters();
    assert_eq!(property_names(&followup), vec!["message"]);
    assert_eq!(followup.required, Some(vec!["message".to_string()]));
    let compact = Kind::Compact.parameters();
    assert!(compact.properties.is_empty() && compact.required.is_none());
    let complete = Kind::Complete.parameters();
    assert_eq!(property_names(&complete), vec!["message"]);
    assert_eq!(complete.required, None);
}

#[test]
fn delays_are_bounded() {
    assert_eq!(MAX_SNOOZE_SECONDS, 30 * 24 * 60 * 60);
    assert_eq!(check_delay(1), Ok(()));
    assert_eq!(check_delay(MAX_SNOOZE_SECONDS), Ok(()));
    let refusal = Err("delay_seconds must be between 1 and 2592000".to_string());
    assert_eq!(check_delay(0), refusal);
    assert_eq!(check_delay(MAX_SNOOZE_SECONDS + 1), refusal);
}

#[test]
fn hidden_helpers_get_the_supervisor_tools() {
    let helper = helper_source(ThreadId { value: 1 }, 1);
    assert_eq!(
        offered(&helper, true, false, false),
        vec![
            "saffron.edit_active_goal",
            "saffron.supervisor_followup_parent",
            "saffron.supervisor_snooze",
            "saffron.supervisor_compact_parent_context",
            "saffron.supervisor_close_self",
        ]
    );
    assert!(offered(&helper, false, true, true).is_empty());
}

#[test]
fn roots_with_goals_may_edit_them() {
    assert_eq!(
        offered(&SessionSource::Cli, false, true, true),
        vec!["saffron.edit_active_goal"]
    );
    assert!(offered(&SessionSource::Cli, false, false, true).is_empty());
    assert!(offered(&SessionSource::Cli, false, true, false).is_empty());
    let agent = SessionSource::SubAgent(SubAgentSource::Other("worker".to_string()));
    assert!(offered(&agent, true, true, true).is_empty());
    let mut registry = ToolRegistry::new();
    register_tools(&SessionSource::Cli, false, true, true, &mut registry);
    assert_eq!(registry.tools(), &vec![RegisteredTool::EditGoal(Authority::Root)]);
}

#[test]
fn resumption_is_offered_where_it_can_be_done() {
    let mut registry = ToolRegistry::new();
    register_root_if_available(false, true, false, true, &mut registry);
    register_root_if_available(true, false, false, true, &mut registry);
    register_root_if_available(true, true, true, true, &mut registry);
    register_root_if_available(true, true, false, false, &mut registry);
    assert!(registry.tools().is_empty());
    register_root_if_available(true, true, false, true, &mut registry);
    assert_eq!(registry.tools(), &vec![RegisteredTool::ResumeGoal]);
    assert_eq!(registry.tools()[0].tool_name().name, "resume_goal");
    assert_eq!(registry.tools()[0].tool_spec().name, "resume_goal");
}

#[test]
fn goal_tools_are_described() {
    let edit = edit_tool_spec();
    assert_eq!(edit.name, "edit_active_goal");
    assert_eq!(property_names(&edit.parameters), vec!["objective"]);
    assert!(edit.description.starts_with("Replace only the objective"));
    let resume = resume_tool_spec();
    assert_eq!(resume.name, "resume_goal");
    assert!(resume.parameters.properties.is_empty());
    assert_eq!(
        resume.namespace_description,
        "Saffron extensions for long-running process and goal coordination."
    );
}

#[test]
fn the_wait_tool_is_described() {
    let spec = create_tool_spec();
    assert_eq!(spec.namespace, "saffron");
    assert_eq!(spec.name, await_tool_name().name);
    assert_eq!(
        property_names(&spec.parameters),
        vec!["max_output_tokens", "return_on", "session_id", "timeout_ms"]
    );
    assert!(matches!(
        &spec.parameters.properties[1].kind,
        PropertyKind::OneOf(choices)
            if choices == &vec!["output_or_exit".to_string(), "exit".to_string()]
    ));
    assert_eq!(spec.parameters.required, Some(vec!["session_id".to_string()]));
    let output = spec.output.expect("the response is described");
    assert_eq!(
        property_names(&output),
        vec![
            "chunk_id",
            "exit_code",
            "original_token_count",
            "output",
            "reason",
            "session_id",
            "wall_time_seconds"
        ]
    );
    assert_eq!(output.required.map(|required| required.len()), Some(5));
}
