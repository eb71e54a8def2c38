use smartime::catalog::{build_source_catalog, catalog_has_id};
use smartime::input_source::{
    find_source_to_select, selection_result, should_include_menu_enabled_source,
    should_include_source, InputSource, MenuEnabledSources, RawSource, SourceType,
};
use smartime::error::AppError;
use smartime::menu_preferences::{load_menu_enabled_sources, menu_from_entries, MenuEntry};

fn raw(id: &str, name: &str, kind: SourceType) -> RawSource {
    RawSource {
        source: InputSource {
            id: id.to_string(),
            name: name.to_string(),
            category: "TISCategoryKeyboardInputSource".to_string(),
        },
        source_type: kind,
        enabled: true,
        selectable: true,
        keyboard_layout_id: None,
        bundle_id: None,
        input_mode_id: None,
    }
}

fn ids(sources: &[InputSource]) -> Vec<&str> {
    sources.iter().map(|s| s.id.as_str()).collect()
}

#[test]
fn test_should_include_source_filters_non_selectable_sources() {
    let keyboard_category = "TISCategoryKeyboardInputSource";
    let keyboard_layout = "TISTypeKeyboardLayout";
    let keyboard_input_mode = "TISTypeKeyboardInputMode";

    assert!(should_include_source(
        keyboard_category,
        keyboard_layout,
        keyboard_category,
        keyboard_layout,
        keyboard_input_mode,
        true,
        true,
    ));

    assert!(should_include_source(
        keyboard_category,
        keyboard_input_mode,
        keyboard_category,
        keyboard_layout,
        keyboard_input_mode,
        true,
        true,
    ));

    assert!(!should_include_source(
        "TISCategoryPaletteInputSource",
        keyboard_input_mode,
        keyboard_category,
        keyboard_layout,
        keyboard_input_mode,
        true,
        true,
    ));

    assert!(!should_include_source(
        keyboard_category,
        "TISTypeInk",
        keyboard_category,
        keyboard_layout,
        keyboard_input_mode,
        true,
        true,
    ));

    assert!(!should_include_source(
        keyboard_category,
        keyboard_layout,
        keyboard_category,
        keyboard_layout,
        keyboard_input_mode,
        false,
        true,
    ));

    assert!(!should_include_source(
        keyboard_category,
        keyboard_layout,
        keyboard_category,
        keyboard_layout,
        keyboard_input_mode,
        true,
        false,
    ));
}

#[test]
fn test_should_include_menu_enabled_source_filters_to_menu_items() {
    assert!(should_include_menu_enabled_source(
        "com.apple.inputmethod.SCIM.ITABC",
        "Pinyin - Simplified",
        "TISTypeKeyboardInputMode",
        None,
        Some("com.apple.inputmethod.SCIM"),
        Some("com.apple.inputmethod.SCIM.ITABC"),
        &["com.apple.inputmethod.SCIM.ITABC"],
        &[(
            "com.apple.inputmethod.SCIM.ITABC",
            "com.apple.inputmethod.SCIM",
        )],
        &[],
        &[],
        &["com.apple.inputmethod.SCIM"],
    ));

    assert!(should_include_menu_enabled_source(
        "com.apple.keylayout.ABC",
        "ABC",
        "TISTypeKeyboardLayout",
        Some(252),
        None,
        None,
        &["com.apple.inputmethod.SCIM.ITABC"],
        &[(
            "com.apple.inputmethod.SCIM.ITABC",
            "com.apple.inputmethod.SCIM",
        )],
        &[252],
        &[],
        &["com.apple.inputmethod.SCIM"],
    ));

    assert!(!should_include_menu_enabled_source(
        "com.apple.inputmethod.Kotoeri.Japanese",
        "Hiragana",
        "TISTypeKeyboardInputMode",
        None,
        Some("com.apple.inputmethod.Kotoeri"),
        Some("com.apple.inputmethod.Japanese"),
        &["com.apple.inputmethod.SCIM.ITABC"],
        &[(
            "com.apple.inputmethod.SCIM.ITABC",
            "com.apple.inputmethod.SCIM",
        )],
        &[],
        &[],
        &["com.apple.inputmethod.SCIM"],
    ));

    assert!(should_include_menu_enabled_source(
        "com.apple.inputmethod.Kotoeri.KanaTyping.Hiragana",
        "Hiragana",
        "TISTypeKeyboardInputMode",
        None,
        Some("com.apple.inputmethod.Kotoeri.KanaTyping"),
        Some("com.apple.inputmethod.Japanese"),
        &["com.apple.inputmethod.Japanese"],
        &[(
            "com.apple.inputmethod.Japanese",
            "com.apple.inputmethod.Kotoeri.KanaTyping",
        )],
        &[],
        &[],
        &["com.apple.inputmethod.Kotoeri.KanaTyping"],
    ));

    assert!(!should_include_menu_enabled_source(
        "com.apple.inputmethod.Kotoeri.Japanese",
        "Hiragana",
        "TISTypeKeyboardInputMode",
        None,
        Some("com.apple.inputmethod.Kotoeri"),
        Some("com.apple.inputmethod.Japanese"),
        &["com.apple.inputmethod.Japanese"],
        &[(
            "com.apple.inputmethod.Japanese",
            "com.apple.inputmethod.Kotoeri.KanaTyping",
        )],
        &[],
        &[],
        &["com.apple.inputmethod.Kotoeri.KanaTyping"],
    ));

    assert!(should_include_menu_enabled_source(
        "com.thirdparty.ime",
        "Third-Party IME",
        "TISTypeKeyboardInputMethodWithoutModes",
        None,
        Some("com.thirdparty.ime"),
        None,
        &[],
        &[],
        &[],
        &[],
        &["com.thirdparty.ime"],
    ));

    assert!(!should_include_menu_enabled_source(
        "com.thirdparty.ime.pinyin",
        "Third-Party IME Pinyin",
        "TISTypeKeyboardInputMode",
        None,
        Some("com.thirdparty.ime"),
        Some("com.thirdparty.ime.pinyin"),
        &[],
        &[],
        &[],
        &[],
        &["com.thirdparty.ime"],
    ));

    assert!(!should_include_menu_enabled_source(
        "com.apple.inputmethod.Korean.2SetKorean",
        "2-Set Korean",
        "TISTypeKeyboardInputMode",
        None,
        Some("com.apple.inputmethod.Korean"),
        Some("com.apple.inputmethod.Korean.2SetKorean"),
        &[
            "com.apple.inputmethod.SCIM.ITABC",
            "com.apple.inputmethod.Korean.2SetKorean",
        ],
        &[
            (
                "com.apple.inputmethod.SCIM.ITABC",
                "com.apple.inputmethod.SCIM",
            ),
            (
                "com.apple.inputmethod.Korean.2SetKorean",
                "com.apple.inputmethod.Korean",
            ),
        ],
        &[252],
        &["ABC"],
        &["com.apple.inputmethod.SCIM"],
    ));
}

#[test]
fn input_mode_must_belong_to_the_recorded_bundle() {
    let included = |owning: &str| {
        should_include_menu_enabled_source(
            "X",
            "Mode X",
            "TISTypeKeyboardInputMode",
            None,
            Some(owning),
            Some("X"),
            &["X"],
            &[("X", "B")],
            &[],
            &[],
            &["B"],
        )
    };
    assert!(included("B"));
    assert!(!included("C"));
}

#[test]
fn input_mode_without_recorded_bundle_is_accepted() {
    assert!(should_include_menu_enabled_source(
        "other.id",
        "Mode",
        "TISTypeKeyboardInputMode",
        None,
        None,
        Some("mode.id"),
        &["mode.id"],
        &[],
        &[],
        &[],
        &["unrelated.bundle"],
    ));
}

#[test]
fn input_mode_of_recorded_bundle_needs_the_bundle_among_input_methods() {
    let included = |methods: &[&str]| {
        should_include_menu_enabled_source(
            "X",
            "Mode X",
            "TISTypeKeyboardInputMode",
            None,
            Some("B"),
            None,
            &["X"],
            &[("X", "B")],
            &[],
            &[],
            methods,
        )
    };
    assert!(included(&[]));
    assert!(included(&["B"]));
    assert!(!included(&["D"]));
}

#[test]
fn later_parent_bundle_replaces_earlier() {
    assert!(should_include_menu_enabled_source(
        "X",
        "Mode X",
        "TISTypeKeyboardInputMode",
        None,
        Some("second"),
        None,
        &["X"],
        &[("X", "first"), ("X", "second")],
        &[],
        &[],
        &[],
    ));
    assert!(!should_include_menu_enabled_source(
        "X",
        "Mode X",
        "TISTypeKeyboardInputMode",
        None,
        Some("first"),
        None,
        &["X"],
        &[("X", "first"), ("X", "second")],
        &[],
        &[],
        &[],
    ));
}

#[test]
fn layout_matches_by_id_or_by_name() {
    let included = |name: &str, id: Option<i64>, ids: &[i64], names: &[&str]| {
        should_include_menu_enabled_source(
            "layout",
            name,
            "TISTypeKeyboardLayout",
            id,
            None,
            None,
            &["some.mode"],
            &[],
            ids,
            names,
            &[],
        )
    };
    assert!(included("ABC", Some(7), &[], &[]));
    assert!(included("ABC", Some(7), &[7], &[]));
    assert!(!included("ABC", Some(8), &[7], &[]));
    assert!(included("ABC", Some(8), &[7], &["ABC"]));
    assert!(included("ABC", None, &[], &["ABC"]));
    assert!(!included("ABC", None, &[7], &[]));
    assert!(!included("ABC", Some(-1), &[], &["Dvorak"]));
}

#[test]
fn input_method_without_modes_matches_by_id_or_bundle() {
    let included = |bundle: Option<&str>, methods: &[&str]| {
        should_include_menu_enabled_source(
            "ime.id",
            "IME",
            "TISTypeKeyboardInputMethodWithoutModes",
            None,
            bundle,
            None,
            &[],
            &[],
            &[],
            &[],
            methods,
        )
    };
    assert!(included(None, &[]));
    assert!(included(None, &["ime.id"]));
    assert!(included(Some("ime.bundle"), &["ime.bundle"]));
    assert!(!included(Some("ime.bundle"), &["other"]));
    assert!(!included(None, &["other"]));
}

#[test]
fn other_types_are_never_shown() {
    assert!(!should_include_menu_enabled_source(
        "ink",
        "Ink",
        "TISTypeInk",
        None,
        None,
        None,
        &["ink"],
        &[],
        &[],
        &["Ink"],
        &["ink"],
    ));
    assert_eq!(SourceType::from_type_name("TISTypeInk"), SourceType::Other);
    assert_eq!(SourceType::from_type_name("TISTypeKeyboardLayout"), SourceType::KeyboardLayout);
    assert_eq!(SourceType::from_type_name("TISTypeKeyboardInputMode"), SourceType::InputMode);
    assert_eq!(
        SourceType::from_type_name("TISTypeKeyboardInputMethodWithoutModes"),
        SourceType::InputMethodWithoutModes
    );
}

#[test]
fn catalog_without_menu_keeps_every_eligible_source_once() {
    let mut disabled = raw("disabled", "Disabled", SourceType::KeyboardLayout);
    disabled.enabled = false;
    let mut unselectable = raw("unselectable", "Unselectable", SourceType::InputMode);
    unselectable.selectable = false;
    let mut palette = raw("palette", "Palette", SourceType::KeyboardLayout);
    palette.source.category = "TISCategoryPaletteInputSource".to_string();
    let raws = vec![
        raw("layout", "Layout", SourceType::KeyboardLayout),
        disabled,
        raw("mode", "Mode", SourceType::InputMode),
        unselectable,
        raw("ink", "Ink", SourceType::Other),
        raw("method", "Method", SourceType::InputMethodWithoutModes),
        palette,
        raw("layout", "Layout again", SourceType::KeyboardLayout),
    ];
    let catalog = build_source_catalog(&raws, None);
    assert_eq!(ids(&catalog), vec!["layout", "mode", "method"]);
    assert_eq!(catalog[0].name, "Layout");
    assert_eq!(catalog[0].category, "TISCategoryKeyboardInputSource");

    let empty = MenuEnabledSources::new();
    assert!(empty.is_empty());
    let with_empty_menu = build_source_catalog(&raws, Some(&empty));
    assert_eq!(ids(&with_empty_menu), vec!["layout", "mode", "method"]);
    for entry in &catalog {
        assert!(raws.iter().any(|r| r.source.id == entry.id));
    }
    assert!(catalog_has_id(&catalog, "mode"));
    assert!(!catalog_has_id(&catalog, "ink"));
    assert!(build_source_catalog(&[], None).is_empty());
}

#[test]
fn catalog_with_menu_keeps_only_menu_sources() {
    let mut menu = MenuEnabledSources::new();
    menu.keyboard_layout_ids.insert(252);
    menu.input_mode_ids.push("X".to_string());
    menu.input_mode_parent_bundles.push(("X".to_string(), "B".to_string()));
    menu.keyboard_input_method_bundle_ids.push("B".to_string());
    assert!(!menu.is_empty());

    let mut abc = raw("com.apple.keylayout.ABC", "ABC", SourceType::KeyboardLayout);
    abc.keyboard_layout_id = Some(252);
    let mut dvorak = raw("com.apple.keylayout.Dvorak", "Dvorak", SourceType::KeyboardLayout);
    dvorak.keyboard_layout_id = Some(16300);
    let mut mode_of_b = raw("X", "Mode X", SourceType::InputMode);
    mode_of_b.input_mode_id = Some("X".to_string());
    mode_of_b.bundle_id = Some("B".to_string());
    let mut mode_of_c = raw("X2", "Mode X of C", SourceType::InputMode);
    mode_of_c.input_mode_id = Some("X".to_string());
    mode_of_c.bundle_id = Some("C".to_string());
    let method = raw("B", "Method B", SourceType::InputMethodWithoutModes);
    let mut hidden = raw("hidden", "Hidden", SourceType::KeyboardLayout);
    hidden.keyboard_layout_id = Some(252);
    hidden.enabled = false;

    let raws = vec![dvorak, mode_of_c, abc, hidden, mode_of_b, method];
    let catalog = build_source_catalog(&raws, Some(&menu));
    assert_eq!(ids(&catalog), vec!["com.apple.keylayout.ABC", "X", "B"]);
    assert!(menu.accepts_raw(&raws[2]));
    assert!(!menu.accepts_raw(&raws[0]));
    assert!(raws[2].is_selectable_keyboard_source());
    assert!(!raws[3].is_selectable_keyboard_source());
}

#[test]
fn raw_source_needs_its_four_names() {
    let text = |s: &str| Some(s.to_string());
    let full = RawSource::from_properties(
        text("id"),
        text("Name"),
        text("TISCategoryKeyboardInputSource"),
        text("TISTypeKeyboardInputMode"),
        Some(true),
        None,
        Some(3),
        text("bundle"),
        None,
    )
    .unwrap();
    assert_eq!(full.source.id, "id");
    assert_eq!(full.source.name, "Name");
    assert_eq!(full.source_type, SourceType::InputMode);
    assert!(full.enabled);
    assert!(!full.selectable);
    assert_eq!(full.keyboard_layout_id, Some(3));
    assert_eq!(full.bundle_id.as_deref(), Some("bundle"));
    assert!(full.input_mode_id.is_none());
    assert!(!full.is_selectable_keyboard_source());
    assert!(RawSource::from_properties(
        None,
        text("Name"),
        text("c"),
        text("t"),
        Some(true),
        Some(true),
        None,
        None,
        None
    )
    .is_none());
    assert!(RawSource::from_properties(
        text("id"),
        text("Name"),
        text("c"),
        None,
        Some(true),
        Some(true),
        None,
        None,
        None
    )
    .is_none());
}

#[test]
fn selection_finds_the_first_source_with_the_id() {
    let ids = vec![None, Some("a".to_string()), Some("b".to_string()), Some("a".to_string())];
    assert_eq!(find_source_to_select(&ids, "a"), Some(1));
    assert_eq!(find_source_to_select(&ids, "b"), Some(2));
    assert_eq!(find_source_to_select(&ids, "c"), None);
    assert_eq!(find_source_to_select(&[], "a"), None);
}

#[test]
fn selection_reports_status_and_missing_ids() {
    assert!(selection_result("a", Some(0)).is_ok());
    match selection_result("a", Some(-50)) {
        Err(AppError::InputSource(m)) => {
            assert_eq!(m, "TISSelectInputSource failed with status: -50")
        }
        _ => panic!("expected a status error"),
    }
    match selection_result("a", Some(1207)) {
        Err(AppError::InputSource(m)) => {
            assert_eq!(m, "TISSelectInputSource failed with status: 1207")
        }
        _ => panic!("expected a status error"),
    }
    match selection_result("com.example.missing", None) {
        Err(e) => assert_eq!(
            e.message(),
            "Input Source error: Input source not found: com.example.missing"
        ),
        _ => panic!("expected a not found error"),
    }
}

fn entry(
    kind: &str,
    input_mode: Option<&str>,
    bundle_id: Option<&str>,
    keyboard_layout_id: Option<i64>,
    keyboard_layout_name: Option<&str>,
) -> MenuEntry {
    MenuEntry {
        kind: kind.to_string(),
        input_mode: input_mode.map(|s| s.to_string()),
        bundle_id: bundle_id.map(|s| s.to_string()),
        keyboard_layout_id,
        keyboard_layout_name: keyboard_layout_name.map(|s| s.to_string()),
    }
}

#[test]
fn menu_is_built_from_entries_by_kind() {
    let entries = vec![
        entry("Keyboard Layout", Some("ignored"), Some("ignored"), Some(252), Some("ABC")),
        entry("Input Mode", Some("mode.a"), Some("bundle.a"), Some(1), Some("ignored")),
        entry("Input Mode", Some("mode.b"), None, None, None),
        entry("Input Mode", None, Some("bundle.c"), None, None),
        entry("Keyboard Input Method", Some("ignored"), Some("bundle.a"), None, None),
        entry("Non Keyboard Input Method", Some("x"), Some("y"), Some(9), Some("z")),
    ];
    let menu = menu_from_entries(&entries).unwrap();
    assert_eq!(menu.keyboard_layout_ids.iter().copied().collect::<Vec<i64>>(), vec![252]);
    assert_eq!(menu.keyboard_layout_names, vec!["ABC".to_string()]);
    assert_eq!(menu.input_mode_ids, vec!["mode.a".to_string(), "mode.b".to_string()]);
    assert_eq!(
        menu.input_mode_parent_bundles,
        vec![("mode.a".to_string(), "bundle.a".to_string())]
    );
    assert_eq!(menu.keyboard_input_method_bundle_ids, vec!["bundle.a".to_string()]);

    assert!(menu_from_entries(&[]).is_none());
    assert!(menu_from_entries(&[entry("Input Mode", None, Some("b"), None, None)]).is_none());
    assert!(menu_from_entries(&[entry("Other", Some("a"), Some("b"), Some(1), Some("n"))]).is_none());
}

const EXPORT: &str = r#"<?xml version="1.0" encoding="UTF-8"?>
<!DOCTYPE plist PUBLIC "-//Apple//DTD PLIST 1.0//EN" "http://www.apple.com/DTDs/PropertyList-1.0.dtd">
<plist version="1.0">
<dict>
  <key>AppleCurrentKeyboardLayoutInputSourceID</key>
  <string>com.apple.keylayout.ABC</string>
  <key>AppleEnabledInputSources</key>
  <array>
    <dict>
      <key>InputSourceKind</key>
      <string>Keyboard Layout</string>
      <key>KeyboardLayout ID</key>
      <integer>252</integer>
      <key>KeyboardLayout Name</key>
      <string>ABC</string>
    </dict>
    <dict>
      <key>Bundle ID</key>
      <string>com.apple.inputmethod.SCIM</string>
      <key>Input Mode</key>
      <string>com.apple.inputmethod.SCIM.ITABC</string>
      <key>InputSourceKind</key>
      <string>Input Mode</string>
    </dict>
    <dict>
      <key>Bundle ID</key>
      <string>com.apple.inputmethod.SCIM</string>
      <key>InputSourceKind</key>
      <string>Keyboard Input Method</string>
    </dict>
    <string>not a dictionary</string>
    <dict>
      <key>Bundle ID</key>
      <string>com.apple.PressAndHold</string>
    </dict>
  </array>
</dict>
</plist>
"#;

#[test]
fn menu_is_read_from_an_export() {
    let menu = load_menu_enabled_sources(EXPORT.as_bytes()).unwrap();
    assert!(!menu.is_empty());
    assert_eq!(menu.keyboard_layout_ids.iter().copied().collect::<Vec<i64>>(), vec![252]);
    assert_eq!(menu.keyboard_layout_names, vec!["ABC".to_string()]);
    assert_eq!(menu.input_mode_ids, vec!["com.apple.inputmethod.SCIM.ITABC".to_string()]);
    assert_eq!(
        menu.input_mode_parent_bundles,
        vec![(
            "com.apple.inputmethod.SCIM.ITABC".to_string(),
            "com.apple.inputmethod.SCIM".to_string()
        )]
    );
    assert_eq!(
        menu.keyboard_input_method_bundle_ids,
        vec!["com.apple.inputmethod.SCIM".to_string()]
    );
    let pinyin = InputSource {
        id: "com.apple.inputmethod.SCIM.ITABC".to_string(),
        name: "Pinyin - Simplified".to_string(),
        category: "TISCategoryKeyboardInputSource".to_string(),
    };
    assert!(menu.matches(
        &pinyin,
        "TISTypeKeyboardInputMode",
        None,
        Some("com.apple.inputmethod.SCIM"),
        Some("com.apple.inputmethod.SCIM.ITABC"),
    ));
    assert!(!menu.matches(
        &pinyin,
        "TISTypeKeyboardInputMode",
        None,
        Some("com.apple.inputmethod.Other"),
        Some("com.apple.inputmethod.SCIM.ITABC"),
    ));
}

#[test]
fn unusable_exports_give_no_menu() {
    assert!(load_menu_enabled_sources(b"").is_none());
    assert!(load_menu_enabled_sources(b"this is not a property list").is_none());
    let no_list = r#"<?xml version="1.0" encoding="UTF-8"?>
<plist version="1.0"><dict><key>Other</key><string>x</string></dict></plist>"#;
    assert!(load_menu_enabled_sources(no_list.as_bytes()).is_none());
    let not_an_array = r#"<?xml version="1.0" encoding="UTF-8"?>
<plist version="1.0"><dict><key>AppleEnabledInputSources</key><string>x</string></dict></plist>"#;
    assert!(load_menu_enabled_sources(not_an_array.as_bytes()).is_none());
    let empty_list = r#"<?xml version="1.0" encoding="UTF-8"?>
<plist version="1.0"><dict><key>AppleEnabledInputSources</key><array/></dict></plist>"#;
    assert!(load_menu_enabled_sources(empty_list.as_bytes()).is_none());
    let root_is_array = r#"<?xml version="1.0" encoding="UTF-8"?>
<plist version="1.0"><array><string>x</string></array></plist>"#;
    assert!(load_menu_enabled_sources(root_is_array.as_bytes()).is_none());
}

#[test]
fn export_items_are_read_property_by_property() {
    let export = r#"<?xml version="1.0" encoding="UTF-8"?>
<plist version="1.0">
<dict>
  <key>AppleEnabledInputSources</key>
  <array>
    <dict>
      <key>InputSourceKind</key>
      <integer>7</integer>
      <key>KeyboardLayout Name</key>
      <string>Passed over</string>
    </dict>
    <dict>
      <key>InputSourceKind</key>
      <string>Keyboard Layout</string>
      <key>KeyboardLayout ID</key>
      <string>252</string>
      <key>KeyboardLayout Name</key>
      <string>ABC</string>
    </dict>
    <dict>
      <key>InputSourceKind</key>
      <string>Keyboard Layout</string>
      <key>KeyboardLayout ID</key>
      <integer>-3</integer>
      <key>KeyboardLayout Name</key>
      <integer>5</integer>
    </dict>
    <dict>
      <key>InputSourceKind</key>
      <string>Input Mode</string>
      <key>Input Mode</key>
      <string>mode.a</string>
      <key>Bundle ID</key>
      <integer>1</integer>
    </dict>
  </array>
</dict>
</plist>
"#;
    let menu = load_menu_enabled_sources(export.as_bytes()).unwrap();
    assert_eq!(menu.keyboard_layout_ids.iter().copied().collect::<Vec<i64>>(), vec![-3]);
    assert_eq!(menu.keyboard_layout_names, vec!["ABC".to_string()]);
    assert_eq!(menu.input_mode_ids, vec!["mode.a".to_string()]);
    assert!(menu.input_mode_parent_bundles.is_empty());
    assert!(menu.keyboard_input_method_bundle_ids.is_empty());
}

#[test]
fn base_eligibility_keeps_input_methods_without_modes() {
    let keyboard_category = "TISCategoryKeyboardInputSource";
    let keyboard_layout = "TISTypeKeyboardLayout";
    let keyboard_input_mode = "TISTypeKeyboardInputMode";
    let method = "TISTypeKeyboardInputMethodWithoutModes";

    assert!(should_include_source(
        keyboard_category,
        method,
        keyboard_category,
        keyboard_layout,
        keyboard_input_mode,
        true,
        true,
    ));
    assert!(!should_include_source(
        keyboard_category,
        method,
        keyboard_category,
        keyboard_layout,
        keyboard_input_mode,
        false,
        true,
    ));
    assert!(!should_include_source(
        keyboard_category,
        method,
        keyboard_category,
        keyboard_layout,
        keyboard_input_mode,
        true,
        false,
    ));
    assert!(!should_include_source(
        "TISCategoryPaletteInputSource",
        method,
        keyboard_category,
        keyboard_layout,
        keyboard_input_mode,
        true,
        true,
    ));

    for name in [keyboard_layout, keyboard_input_mode, method, "TISTypeInk", ""] {
        let raw = RawSource::from_properties(
            Some("id".to_string()),
            Some("Name".to_string()),
            Some(keyboard_category.to_string()),
            Some(name.to_string()),
            Some(true),
            Some(true),
            None,
            None,
            None,
        )
        .unwrap();
        assert_eq!(
            raw.is_selectable_keyboard_source(),
            should_include_source(
                keyboard_category,
                name,
                keyboard_category,
                keyboard_layout,
                keyboard_input_mode,
                true,
                true,
            )
        );
    }
}
