use ytm_bridge::plugins::{
    assemble_plugin_bundle, effective_enabled_plugins, PluginManifest, SCRIPT_SEPARATOR,
};
use ytm_bridge::reactor::{
    custom_css_script, settings_change_scripts, style_script, CUSTOM_CSS_HEAD, CUSTOM_CSS_TAIL,
    REMOVE_CUSTOM_CSS_SCRIPT,
};
use ytm_bridge::scheduler::{InjectionScheduler, TickAction};
use ytm_bridge::scripts::SETTINGS_BUTTON_SCRIPT;

fn manifest(main: &str) -> PluginManifest {
    PluginManifest {
        name: "p".to_string(),
        version: "1.0.0".to_string(),
        description: String::new(),
        main: main.to_string(),
        permissions: vec![],
    }
}

#[test]
fn empty_plugin_list_gives_button_script_alone() {
    assert_eq!(assemble_plugin_bundle(&vec![]), SETTINGS_BUTTON_SCRIPT);
}

#[test]
fn unresolved_plugin_is_skipped() {
    let bundle = assemble_plugin_bundle(&vec![Some("A();".to_string()), None]);
    assert_eq!(bundle, format!("{}\n;\nA();", SETTINGS_BUTTON_SCRIPT));
    assert!(bundle.contains("A();"));
}

#[test]
fn plugins_joined_in_order() {
    let bundle = assemble_plugin_bundle(&vec![
        None,
        Some("one()".to_string()),
        None,
        Some("two()".to_string()),
    ]);
    assert_eq!(
        bundle,
        format!("{}{}one(){}two()", SETTINGS_BUTTON_SCRIPT, SCRIPT_SEPARATOR, SCRIPT_SEPARATOR)
    );
}

#[test]
fn entry_file_defaults_to_index_js() {
    assert_eq!(manifest("").entry_file(), "index.js");
    assert_eq!(manifest("main.js").entry_file(), "main.js");
}

#[test]
fn enabled_plugins_fall_back_to_defaults() {
    let d = vec!["lyrics".to_string(), "fine-volume-control".to_string()];
    assert_eq!(effective_enabled_plugins(None), d);
    assert_eq!(effective_enabled_plugins(Some(vec![])), d);
    assert_eq!(
        effective_enabled_plugins(Some(vec!["b".to_string(), "a".to_string()])),
        vec!["b".to_string(), "a".to_string()]
    );
}

#[test]
fn first_tick_and_every_eighth_reinject() {
    let mut s = InjectionScheduler::new();
    let mut reinjected = vec![];
    for n in 1..=24u32 {
        match s.tick(true) {
            TickAction::RefreshAndReinject => reinjected.push(n),
            TickAction::Refresh => {}
            TickAction::Skip => panic!("a window was present"),
        }
    }
    assert_eq!(reinjected, vec![1, 8, 16, 24]);
}

#[test]
fn tick_without_window_is_skipped_and_not_counted() {
    let mut s = InjectionScheduler::new();
    assert_eq!(s.tick(false), TickAction::Skip);
    assert_eq!(s.tick(true), TickAction::RefreshAndReinject);
    assert_eq!(s.tick(false), TickAction::Skip);
    for _ in 2..8 {
        assert_eq!(s.tick(true), TickAction::Refresh);
    }
    assert_eq!(s.tick(true), TickAction::RefreshAndReinject);
}

#[test]
fn empty_css_removes_style() {
    assert_eq!(custom_css_script(""), REMOVE_CUSTOM_CSS_SCRIPT);
}

#[test]
fn css_is_carried_as_json_literal() {
    let s = custom_css_script("a{content:\"x\"}\n");
    assert_eq!(
        s,
        format!("{}{}{}", CUSTOM_CSS_HEAD, "\"a{content:\\\"x\\\"}\\n\"", CUSTOM_CSS_TAIL)
    );
    assert!(s.contains("el.textContent = \"a{content:\\\"x\\\"}\\n\";"));
    assert!(!s.contains("JSON.parse"));
}

#[test]
fn css_control_characters_are_escaped() {
    let s = custom_css_script("a\tb\u{1}\\");
    assert_eq!(
        s,
        format!("{}{}{}", CUSTOM_CSS_HEAD, "\"a\\tb\\u0001\\\\\"", CUSTOM_CSS_TAIL)
    );
}

#[test]
fn style_script_wraps_quoted_text() {
    assert_eq!(style_script("\"b\""), format!("{}\"b\"{}", CUSTOM_CSS_HEAD, CUSTOM_CSS_TAIL));
}

#[test]
fn settings_change_order() {
    let all = settings_change_scripts("B".to_string(), "C".to_string(), "J".to_string());
    assert_eq!(all, vec!["B".to_string(), "C".to_string(), "J".to_string()]);
    let no_js = settings_change_scripts("B".to_string(), "C".to_string(), String::new());
    assert_eq!(no_js, vec!["B".to_string(), "C".to_string()]);
    let css_only = settings_change_scripts(String::new(), "C".to_string(), String::new());
    assert_eq!(css_only, vec!["C".to_string()]);
}
