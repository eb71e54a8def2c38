use smartime::config::{AppConfig, AppRule, ConfigManager};
use smartime::error::AppError;
use smartime::observer::{
    finish_switch, plan_switch, resolve_target_input_source, AppFocusedEvent, FocusDispatcher,
    SwitchPlan, SCAN_REPLY_TIMEOUT_MS, SWITCH_REPLY_TIMEOUT_MS,
};

fn event(bundle_id: &str) -> AppFocusedEvent {
    AppFocusedEvent { bundle_id: bundle_id.to_string(), app_name: bundle_id.to_uppercase() }
}

fn manager(global_switch: bool) -> ConfigManager {
    let mut config = AppConfig::default();
    config.global_switch = global_switch;
    config.rules = vec![
        AppRule {
            bundle_id: "editor".to_string(),
            app_name: "Editor".to_string(),
            preferred_input: "abc".to_string(),
            is_ai_generated: false,
        },
        AppRule {
            bundle_id: "chat".to_string(),
            app_name: "Chat".to_string(),
            preferred_input: "pinyin".to_string(),
            is_ai_generated: true,
        },
    ];
    ConfigManager::new(config)
}

#[test]
fn new_dispatcher_remembers_nothing() {
    let dispatcher = FocusDispatcher::new();
    assert_eq!(dispatcher.last_bundle_id(), "");
    assert_eq!(dispatcher.last_applied_input(), None);
    assert_eq!(SWITCH_REPLY_TIMEOUT_MS, 500);
    assert_eq!(SCAN_REPLY_TIMEOUT_MS, 5000);
}

#[test]
fn repeated_event_is_discarded() {
    let mut dispatcher = FocusDispatcher::new();
    assert!(dispatcher.take_event(&event("editor")));
    assert_eq!(dispatcher.last_bundle_id(), "editor");
    assert!(!dispatcher.take_event(&event("editor")));
    assert!(!dispatcher.take_event(&event("editor")));
    assert_eq!(dispatcher.last_bundle_id(), "editor");
    assert!(dispatcher.take_event(&event("chat")));
    assert!(dispatcher.take_event(&event("editor")));
}

#[test]
fn event_for_the_empty_bundle_is_discarded_at_first() {
    let mut dispatcher = FocusDispatcher::new();
    assert!(!dispatcher.take_event(&event("")));
    assert!(dispatcher.take_event(&event("editor")));
    assert!(dispatcher.take_event(&event("")));
}

#[test]
fn failure_leaves_the_applied_input_and_the_loop_goes_on() {
    let mut dispatcher = FocusDispatcher::new();
    assert!(dispatcher.take_event(&event("editor")));
    dispatcher.complete(Ok(Some("abc".to_string())));
    assert_eq!(dispatcher.last_applied_input(), Some("abc"));

    assert!(dispatcher.take_event(&event("chat")));
    dispatcher.complete(Err("Timed out waiting main-thread input resolution".to_string()));
    assert_eq!(dispatcher.last_applied_input(), Some("abc"));
    assert_eq!(dispatcher.last_bundle_id(), "chat");

    assert!(dispatcher.take_event(&event("browser")));
    dispatcher.complete(Ok(None));
    assert_eq!(dispatcher.last_applied_input(), Some("abc"));

    assert!(dispatcher.take_event(&event("chat")));
    dispatcher.complete(Ok(Some("pinyin".to_string())));
    assert_eq!(dispatcher.last_applied_input(), Some("pinyin"));
}

#[test]
fn target_is_resolved_from_the_rules() {
    let on = manager(true);
    assert_eq!(resolve_target_input_source(&on, "editor").as_deref(), Some("abc"));
    assert_eq!(resolve_target_input_source(&on, "unknown"), None);
    let off = manager(false);
    assert_eq!(resolve_target_input_source(&off, "editor"), None);
}

#[test]
fn plan_selects_only_a_new_target() {
    let on = manager(true);
    match plan_switch(&on, "editor", None) {
        SwitchPlan::Select(input) => assert_eq!(input, "abc"),
        other => panic!("unexpected plan {:?}", other),
    }
    match plan_switch(&on, "editor", Some("pinyin")) {
        SwitchPlan::Select(input) => assert_eq!(input, "abc"),
        other => panic!("unexpected plan {:?}", other),
    }
    match plan_switch(&on, "editor", Some("abc")) {
        SwitchPlan::Keep(input) => assert_eq!(input, "abc"),
        other => panic!("unexpected plan {:?}", other),
    }
    assert!(matches!(plan_switch(&on, "unknown", Some("abc")), SwitchPlan::Nothing));
    assert!(matches!(plan_switch(&manager(false), "editor", None), SwitchPlan::Nothing));
}

#[test]
fn unit_of_work_reports_target_or_error() {
    assert_eq!(finish_switch(SwitchPlan::Nothing, Ok(())), Ok(None));
    assert_eq!(
        finish_switch(SwitchPlan::Nothing, Err(AppError::Unknown("unread".to_string()))),
        Ok(None)
    );
    assert_eq!(
        finish_switch(SwitchPlan::Keep("abc".to_string()), Ok(())),
        Ok(Some("abc".to_string()))
    );
    assert_eq!(
        finish_switch(SwitchPlan::Select("abc".to_string()), Ok(())),
        Ok(Some("abc".to_string()))
    );
    assert_eq!(
        finish_switch(
            SwitchPlan::Select("abc".to_string()),
            Err(AppError::InputSource("Input source not found: abc".to_string()))
        ),
        Err("Input Source error: Input source not found: abc".to_string())
    );
}

#[test]
fn missing_event_properties_read_unknown() {
    let both = AppFocusedEvent::from_properties(None, None);
    assert_eq!(both.bundle_id, "unknown");
    assert_eq!(both.app_name, "unknown");
    let named = AppFocusedEvent::from_properties(Some("x.app".to_string()), Some("App".to_string()));
    assert_eq!(named.bundle_id, "x.app");
    assert_eq!(named.app_name, "App");
}
