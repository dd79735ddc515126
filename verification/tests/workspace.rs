use winshell::workspace::{
    default_profile, next_language, next_theme, OverlayAction, Overlays, SettingsPage, Tabs,
};

#[test]
fn tabs_open_close_and_cycle() {
    let mut tabs = Tabs::new();
    assert_eq!(tabs.len(), 0);
    assert_eq!(tabs.open(), 1);
    assert_eq!(tabs.open(), 2);
    assert_eq!(tabs.open(), 3);
    assert_eq!(tabs.active(), 2);
    tabs.next();
    assert_eq!(tabs.active(), 0);
    tabs.previous();
    assert_eq!(tabs.active(), 2);
    tabs.previous();
    tabs.next();
    assert_eq!(tabs.active(), 2);
    assert!(tabs.activate(1));
    assert!(!tabs.activate(3));
    assert!(tabs.close(0));
    assert_eq!(tabs.active(), 0);
    assert_eq!(tabs.id(0), 2);
    assert!(tabs.close(1));
    assert_eq!(tabs.active(), 0);
    assert!(!tabs.close(5));
    assert!(tabs.close(0));
    assert_eq!((tabs.len(), tabs.active()), (0, 0));
    assert_eq!(tabs.open(), 4);
}

#[test]
fn settings_cycle_skins_and_languages() {
    assert_eq!(next_theme("midnight"), "catppuccin");
    assert_eq!(next_theme("custom"), "midnight");
    assert_eq!(next_theme("nope"), "catppuccin");
    assert_eq!(next_language("system"), "en");
    assert_eq!(next_language("es"), "system");
    assert_eq!(next_language("zh-TW"), "ja");
    let ids = vec!["wsl".to_string(), "bash".to_string()];
    assert_eq!(default_profile(&ids, "bash"), 1);
    assert_eq!(default_profile(&ids, "fish"), 0);
}

#[test]
fn overlay_keys() {
    let mut o = Overlays::new();
    assert_eq!(o.key("f6", 2), None);
    assert_eq!(o.toggle_settings(), OverlayAction::Stay);
    assert!(o.settings && o.settings_page == SettingsPage::Appearance);
    assert_eq!(o.key("f6", 2), Some(OverlayAction::NextTheme));
    assert_eq!(o.key("f7", 2), Some(OverlayAction::NextLanguage));
    assert_eq!(o.key("x", 2), Some(OverlayAction::Stay));
    assert_eq!(o.key("escape", 2), Some(OverlayAction::FocusActive));
    assert!(!o.settings);
    o.launcher = true;
    assert_eq!(o.key("up", 3), Some(OverlayAction::Stay));
    assert_eq!(o.launcher_index, 2);
    o.key("down", 3);
    assert_eq!(o.launcher_index, 0);
    assert_eq!(o.key("enter", 3), Some(OverlayAction::OpenProfile(0)));
    o.settings = true;
    assert_eq!(o.toggle_settings(), OverlayAction::FocusActive);
    assert!(!o.launcher);
}

#[test]
fn closing_a_new_tab_restores_the_tabs() {
    let mut tabs = Tabs::new();
    tabs.open();
    tabs.open();
    let before: Vec<usize> = (0..tabs.len()).map(|i| tabs.id(i)).collect();
    assert_eq!(tabs.next_id(), 3);
    let id = tabs.open();
    assert_eq!(id, 3);
    assert!(tabs.close(tabs.len() - 1));
    let after: Vec<usize> = (0..tabs.len()).map(|i| tabs.id(i)).collect();
    assert_eq!(before, after);
    assert_eq!(tabs.next_id(), 4);
}
