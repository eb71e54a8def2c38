use smartime::config::{AppConfig, AppRule, ConfigManager, GeneralSettings};
use smartime::error::AppError;
use smartime::general_settings::{
    build_launch_agent_plist, disable_failed, dock_should_show, launch_agent_file_name,
    launchctl_target, next_disable_step, settings_delta, startup_settings, tray_must_be_created,
    uid_from_output, DisableStep, TRAY_ICON_ID,
};

fn rule(bundle_id: &str, preferred_input: &str, is_ai_generated: bool) -> AppRule {
    AppRule {
        bundle_id: bundle_id.to_string(),
        app_name: bundle_id.to_uppercase(),
        preferred_input: preferred_input.to_string(),
        is_ai_generated,
    }
}

#[test]
fn test_general_settings_default() {
    let defaults = GeneralSettings::default();
    assert!(defaults.auto_start);
    assert!(!defaults.hide_dock_icon);
}

#[test]
fn test_build_launch_agent_plist() {
    let label = "com.smartime.app";
    let exec_path = "/Applications/SmartIME.app/Contents/MacOS/SmartIME";
    let plist = build_launch_agent_plist(label, exec_path);
    assert!(!plist.contains("\\\""));
    assert!(plist.contains("<key>Label</key>"));
    assert!(plist.contains(label));
    assert!(plist.contains(exec_path));
    assert!(plist.contains("<key>RunAtLoad</key>"));
    assert!(plist.contains("<true/>"));
}

#[test]
fn launch_agent_plist_is_exact() {
    let plist = build_launch_agent_plist("l", "/e");
    let expected = "<?xml version=\"1.0\" encoding=\"UTF-8\"?>\n<!DOCTYPE plist PUBLIC \"-//Apple//DTD PLIST 1.0//EN\" \"http://www.apple.com/DTDs/PropertyList-1.0.dtd\">\n<plist version=\"1.0\">\n<dict>\n  <key>Label</key>\n  <string>l</string>\n  <key>ProgramArguments</key>\n  <array>\n    <string>/e</string>\n  </array>\n  <key>RunAtLoad</key>\n  <true/>\n</dict>\n</plist>\n";
    assert_eq!(plist, expected);
    assert_eq!(launch_agent_file_name("com.smartime.app"), "com.smartime.app.plist");
    assert_eq!(launchctl_target("501"), "gui/501");
    assert_eq!(TRAY_ICON_ID, "smartime-status");
}

#[test]
fn default_config_is_version_one_and_keeps_the_input() {
    let config = AppConfig::default();
    assert_eq!(config.version, 1);
    assert!(config.global_switch);
    assert_eq!(config.default_input, "keep");
    assert_eq!(config.general, GeneralSettings::default());
    assert!(config.rules.is_empty());
}

#[test]
fn delta_holds_only_what_changed() {
    let on = GeneralSettings { auto_start: true, hide_dock_icon: false };
    let hidden = GeneralSettings { auto_start: true, hide_dock_icon: true };
    let off_hidden = GeneralSettings { auto_start: false, hide_dock_icon: true };
    let same = settings_delta(&on, &on);
    assert_eq!(same.hide_dock_icon, None);
    assert_eq!(same.auto_start, None);
    let dock = settings_delta(&on, &hidden);
    assert_eq!(dock.hide_dock_icon, Some(true));
    assert_eq!(dock.auto_start, None);
    let both = settings_delta(&off_hidden, &on);
    assert_eq!(both.hide_dock_icon, Some(false));
    assert_eq!(both.auto_start, Some(true));
    let start = startup_settings(&off_hidden);
    assert_eq!(start.hide_dock_icon, Some(true));
    assert_eq!(start.auto_start, Some(false));
}

#[test]
fn dock_shows_unless_hidden_with_the_window_closed() {
    assert!(dock_should_show(false, None));
    assert!(dock_should_show(false, Some(false)));
    assert!(dock_should_show(true, Some(true)));
    assert!(!dock_should_show(true, Some(false)));
    assert!(!dock_should_show(true, None));
    assert!(tray_must_be_created(false, true));
    assert!(!tray_must_be_created(true, true));
    assert!(!tray_must_be_created(false, false));
}

#[test]
fn manager_answers_from_the_last_rule_of_a_bundle() {
    let mut config = AppConfig::default();
    config.rules = vec![rule("a", "one", true), rule("b", "two", false), rule("a", "three", true)];
    let manager = ConfigManager::new(config);
    assert_eq!(manager.get_rule("a").as_deref(), Some("three"));
    assert_eq!(manager.get_rule("b").as_deref(), Some("two"));
    assert_eq!(manager.get_rule("c"), None);
    assert_eq!(manager.get_rule(""), None);
    let copy = manager.get_config();
    assert_eq!(copy.rules.len(), 3);
    assert_eq!(copy.rules[2].preferred_input, "three");
    assert_eq!(copy.default_input, "keep");
}

#[test]
fn manager_answers_nothing_while_switched_off() {
    let mut config = AppConfig::default();
    config.global_switch = false;
    config.rules = vec![rule("a", "one", true)];
    let mut manager = ConfigManager::new(config);
    assert_eq!(manager.get_rule("a"), None);
    let mut on = manager.get_config();
    on.global_switch = true;
    manager.set_config(on);
    assert_eq!(manager.get_rule("a").as_deref(), Some("one"));
    assert!(manager.get_config().global_switch);
}

#[test]
fn added_rule_replaces_the_rules_of_its_bundle() {
    let mut config = AppConfig::default();
    config.version = 3;
    config.rules = vec![
        rule("a", "one", true),
        rule("b", "two", false),
        rule("a", "three", true),
        rule("c", "four", true),
    ];
    let mut manager = ConfigManager::new(config);
    manager.add_or_update_rule(rule("a", "five", false));
    let after = manager.get_config();
    let ids: Vec<&str> = after.rules.iter().map(|r| r.bundle_id.as_str()).collect();
    assert_eq!(ids, vec!["b", "c", "a"]);
    assert_eq!(after.rules[2].preferred_input, "five");
    assert!(!after.rules[2].is_ai_generated);
    assert_eq!(after.version, 3);
    assert_eq!(manager.get_rule("a").as_deref(), Some("five"));
    manager.add_or_update_rule(rule("d", "six", true));
    assert_eq!(manager.get_config().rules.len(), 4);
    assert_eq!(manager.get_rule("d").as_deref(), Some("six"));
}

#[test]
fn every_error_has_its_heading() {
    let m = |s: &str| s.to_string();
    assert_eq!(AppError::Io(m("x")).message(), "IO error: x");
    assert_eq!(AppError::Network(m("x")).message(), "Network error: x");
    assert_eq!(AppError::Config(m("x")).message(), "Configuration error: x");
    assert_eq!(AppError::InputSource(m("x")).message(), "Input Source error: x");
    assert_eq!(AppError::Llm(m("x")).message(), "LLM error: x");
    assert_eq!(AppError::Lock(m("x")).message(), "Lock error: x");
    assert_eq!(AppError::Json(m("x")).message(), "JSON error: x");
    assert_eq!(AppError::Unknown(m("")).message(), "Unknown error: ");
}

#[test]
fn uid_is_the_trimmed_output_of_a_successful_command() {
    assert_eq!(uid_from_output(true, "501\n").unwrap(), "501");
    assert_eq!(uid_from_output(true, "  0 ").unwrap(), "0");
    match uid_from_output(true, " \n") {
        Err(AppError::Config(m)) => assert_eq!(m, "UID is empty"),
        _ => panic!("expected an error"),
    }
    match uid_from_output(false, "501\n") {
        Err(AppError::Config(m)) => assert_eq!(m, "Failed to resolve UID via id -u"),
        _ => panic!("expected an error"),
    }
    match uid_from_output(false, "") {
        Err(AppError::Config(m)) => assert_eq!(m, "Failed to resolve UID via id -u"),
        _ => panic!("expected an error"),
    }
}

#[test]
fn agent_is_booted_out_then_unloaded() {
    assert_eq!(next_disable_step(None, None), DisableStep::Bootout);
    assert_eq!(next_disable_step(None, Some(true)), DisableStep::Bootout);
    assert_eq!(next_disable_step(Some(true), None), DisableStep::Done);
    assert_eq!(next_disable_step(Some(true), Some(false)), DisableStep::Done);
    assert_eq!(next_disable_step(Some(false), None), DisableStep::Unload);
    assert_eq!(next_disable_step(Some(false), Some(true)), DisableStep::Done);
    assert_eq!(next_disable_step(Some(false), Some(false)), DisableStep::Failed);
    assert_eq!(
        disable_failed().message(),
        "Configuration error: Failed to disable auto-start via launchctl"
    );
}
