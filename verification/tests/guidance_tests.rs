use saffrodex::goal_supervisor::guidance::guidance_diff;
use saffrodex::goal_supervisor::guidance::guidance_section;
use saffrodex::goal_supervisor::guidance::matches_guidance;
use saffrodex::goal_supervisor::guidance::matches_legacy_guidance;
use saffrodex::goal_supervisor::guidance::matches_marked_guidance;
use saffrodex::goal_supervisor::guidance::rendered;
use saffrodex::goal_supervisor::guidance::snapshot_instructions;
use saffrodex::goal_supervisor::guidance::GoalGuidanceState;
use saffrodex::goal_supervisor::guidance::PreviousWorldStateSection;
use saffrodex::goal_supervisor::guidance::INSTRUCTIONS;
use saffrodex::goal_supervisor::guidance::LEGACY_END_MARKER;
use saffrodex::goal_supervisor::guidance::LEGACY_START_MARKER;
use saffrodex::goal_supervisor::guidance::REMOVAL_NOTICE;
use saffrodex::goal_supervisor::guidance::REPLACEMENT_NOTICE;

#[test]
fn persistent_guidance_is_emitted_once_for_unchanged_state() {
    let section = guidance_section(true);
    let initial = section
        .render_diff(PreviousWorldStateSection::Absent)
        .expect("initial guidance");

    assert_eq!(initial.body(), format!("\n{INSTRUCTIONS}\n"));
    assert!(section.matches_retained_fragment("developer", &rendered(&initial)));
    assert!(section
        .render_diff(PreviousWorldStateSection::Known(&section.snapshot()))
        .is_none());
}

#[test]
fn guidance_is_replaced_or_retired_when_configuration_changes() {
    let enabled = guidance_section(true);
    let disabled = guidance_section(false);

    let replaced = enabled
        .render_diff(PreviousWorldStateSection::Unknown)
        .expect("replacement guidance");
    assert_eq!(
        replaced.body(),
        format!("\n{REPLACEMENT_NOTICE}\n\n{INSTRUCTIONS}\n")
    );

    let retired = disabled
        .render_diff(PreviousWorldStateSection::Known(&enabled.snapshot()))
        .expect("retirement guidance");
    assert_eq!(retired.body(), format!("\n{REMOVAL_NOTICE}\n"));
}

#[test]
fn prior_turn_local_guidance_is_recognized_for_replacement() {
    let legacy = format!("{LEGACY_START_MARKER}old guidance{LEGACY_END_MARKER}");

    assert!(guidance_section(true).matches_legacy_fragment("developer", &legacy));
    assert!(!guidance_section(true).matches_retained_fragment("developer", &legacy));
}

#[test]
fn guidance_is_root_scoped() {
    assert!(
        GoalGuidanceState {
            is_root: true,
            goals_enabled: true,
        }
        .enabled()
    );
    assert!(
        !GoalGuidanceState {
            is_root: false,
            goals_enabled: true,
        }
        .enabled()
    );
    assert!(
        !GoalGuidanceState {
            is_root: true,
            goals_enabled: false,
        }
        .enabled()
    );
}

#[test]
fn threads_keep_their_place_when_the_configuration_changes() {
    let root = GoalGuidanceState::at_thread_start(false, false);
    assert!(root.is_root && !root.enabled());
    assert!(GoalGuidanceState::after_config_change(Some(root), true).enabled());
    let agent = GoalGuidanceState::at_thread_start(true, true);
    assert!(!GoalGuidanceState::after_config_change(Some(agent), true).enabled());
    assert!(!GoalGuidanceState::after_config_change(None, true).enabled());
}

#[test]
fn snapshots_hold_the_guidance_as_json() {
    let snapshot = guidance_section(true).snapshot();
    assert_eq!(snapshot.get("instructions").and_then(|text| text.as_str()), Some(INSTRUCTIONS));
    assert_eq!(snapshot_instructions(&snapshot).as_deref(), Some(INSTRUCTIONS));
    let empty = guidance_section(false).snapshot();
    assert_eq!(empty.to_string(), "{\"instructions\":null}");
    assert_eq!(snapshot_instructions(&empty), None);
    let older = serde_json::Value::from_iter([("instructions", "older")]);
    assert_eq!(snapshot_instructions(&older).as_deref(), Some("older"));
    assert_eq!(snapshot_instructions(&serde_json::Value::from("instructions")), None);
    let replaced = guidance_section(true)
        .render_diff(PreviousWorldStateSection::Known(&older))
        .unwrap();
    assert!(replaced.body().starts_with(&format!("\n{REPLACEMENT_NOTICE}\n\n")));
    assert_eq!(replaced.role(), "developer");
    assert_eq!(
        replaced.markers(),
        ("<saffron_goal_supervisor>", "</saffron_goal_supervisor>")
    );
}

#[test]
fn nothing_is_said_of_guidance_that_never_was() {
    assert!(guidance_section(false).render_diff(PreviousWorldStateSection::Absent).is_none());
    assert_eq!(
        guidance_section(false).render_diff(PreviousWorldStateSection::Unknown).unwrap().body(),
        format!("\n{REMOVAL_NOTICE}\n")
    );
    assert_eq!(guidance_diff(Some("a"), Some(None)).unwrap().body(), "\na\n");
    assert!(guidance_diff(Some("a"), Some(Some("a"))).is_none());
}

#[test]
fn whitespace_around_markers_does_not_matter() {
    let text = "\u{2003}\n<saffron_goal_supervisor>x</saffron_goal_supervisor> \t";
    assert!(matches_guidance("developer", text));
    assert!(matches_legacy_guidance("developer", text));
    assert!(!matches_guidance("user", text));
    assert!(!matches_guidance("developer", "x<saffron_goal_supervisor></saffron_goal_supervisor>"));
    assert!(matches_marked_guidance("developer", " <a>b</a>", "<a>", "</a>"));
    assert!(!matches_marked_guidance("developer", "<a>b</a>.", "<a>", "</a>"));
}
