use winshell::terminal::RowCell;
use winshell::view::{
    accepted_suffix, focus_report, key_action, mouse_report, row_matches, search_index,
    wheel_action, KeyAction, Modifiers, MouseMode, WheelAction,
};

const NONE: Modifiers = Modifiers { control: false, alt: false, shift: false };

#[test]
fn accepting_a_suggestion_types_its_rest() {
    assert_eq!(accepted_suffix(Some("git st"), "git st", Some("git status")), Some(b"atus".to_vec()));
    assert_eq!(accepted_suffix(Some("git sta"), "git st", Some("git status")), None);
    assert_eq!(accepted_suffix(Some(""), "", Some("git")), None);
    assert_eq!(accepted_suffix(None, "git", Some("git status")), None);
    assert_eq!(accepted_suffix(Some("echo"), "echo", Some("echo 中文")), Some(" 中文".as_bytes().to_vec()));
}

#[test]
fn keys_of_a_terminal_tab() {
    assert!(matches!(key_action("escape", NONE, false, true, false, 28, false), KeyAction::CloseSearch));
    assert!(matches!(key_action("enter", NONE, false, true, false, 28, false), KeyAction::FindNext));
    assert!(matches!(key_action("backspace", NONE, false, true, false, 28, false), KeyAction::SearchBackspace));
    let ctrl = Modifiers { control: true, alt: false, shift: false };
    assert!(matches!(key_action("a", ctrl, false, true, false, 28, false), KeyAction::ClearSearch));
    assert!(matches!(key_action("b", NONE, true, true, false, 28, false), KeyAction::Pass));
    let alt = Modifiers { control: false, alt: true, shift: false };
    assert!(matches!(key_action("right", alt, false, false, true, 28, false), KeyAction::AcceptSuggestion));
    let shift = Modifiers { control: false, alt: false, shift: true };
    assert!(matches!(key_action("pageup", shift, false, false, false, 28, false), KeyAction::Scroll(27)));
    assert!(matches!(key_action("pagedown", shift, false, false, false, 28, false), KeyAction::Scroll(-27)));
    let altgr = Modifiers { control: true, alt: true, shift: false };
    assert!(matches!(key_action("q", altgr, true, false, false, 28, false), KeyAction::Pass));
    match key_action("c", ctrl, false, false, false, 28, false) {
        KeyAction::Send { bytes, leaves_prompt } => {
            assert_eq!(bytes, [3]);
            assert!(leaves_prompt);
        }
        _ => panic!("Ctrl+C must be sent"),
    }
    match key_action("up", NONE, false, false, false, 28, true) {
        KeyAction::Send { bytes, leaves_prompt } => {
            assert_eq!(bytes, b"\x1bOA");
            assert!(!leaves_prompt);
        }
        _ => panic!("Up must be sent"),
    }
    assert!(matches!(key_action("a", NONE, true, false, false, 28, false), KeyAction::Pass));
}

#[test]
fn mouse_reports() {
    let sgr = MouseMode { reporting: true, sgr: true };
    let legacy = MouseMode { reporting: true, sgr: false };
    let off = MouseMode { reporting: false, sgr: true };
    assert_eq!(mouse_report(4, 9, 0, false, NONE, sgr, 28, 100), Some(Some(b"\x1b[<0;10;5M".to_vec())));
    let ctrl = Modifiers { control: true, alt: true, shift: false };
    assert_eq!(mouse_report(40, 900, 2, true, ctrl, sgr, 28, 100), Some(Some(b"\x1b[<26;100;28m".to_vec())));
    assert_eq!(mouse_report(0, 0, 1, false, NONE, legacy, 28, 100), Some(Some(vec![27, b'[', b'M', 33, 33, 33])));
    assert_eq!(mouse_report(0, 0, 1, true, NONE, legacy, 28, 100), Some(Some(vec![27, b'[', b'M', 35, 33, 33])));
    assert_eq!(mouse_report(0, 300, 0, false, NONE, legacy, 28, 500), Some(None));
    assert_eq!(mouse_report(0, 0, 0, false, NONE, off, 28, 100), None);
    let shift = Modifiers { control: false, alt: false, shift: true };
    assert_eq!(mouse_report(0, 0, 0, false, shift, sgr, 28, 100), None);
}

#[test]
fn wheel_and_focus() {
    assert!(matches!(wheel_action(3, true, false, false, false), WheelAction::Report { button: 64, count: 3 }));
    assert!(matches!(wheel_action(-100, true, true, false, false), WheelAction::Report { button: 65, count: 30 }));
    match wheel_action(2, false, true, false, true) {
        WheelAction::Send(bytes) => assert_eq!(bytes, b"\x1bOA\x1bOA"),
        _ => panic!("full-screen programs get cursor keys"),
    }
    assert!(matches!(wheel_action(-2, true, true, true, false), WheelAction::Scroll(-2)));
    assert_eq!(focus_report(true, true), Some(b"\x1b[I".to_vec()));
    assert_eq!(focus_report(false, true), Some(b"\x1b[O".to_vec()));
    assert_eq!(focus_report(true, false), None);
}

fn cells(text: &str) -> Vec<RowCell> {
    text.chars().map(|c| RowCell { c, wide_spacer: false, zero_width: vec![] }).collect()
}

#[test]
fn search_matches_within_a_row() {
    assert_eq!(row_matches(&cells("UI_PASS and UI_PASS"), "UI_PASS"), vec![(0, 6), (12, 18)]);
    assert_eq!(row_matches(&cells("aaaa"), "aa"), vec![(0, 1), (2, 3)]);
    assert!(row_matches(&cells("abc"), "").is_empty());
    assert!(row_matches(&cells("abc"), "ABC").is_empty());
    let mut wide = cells("中 x中");
    wide.insert(1, RowCell { c: ' ', wide_spacer: true, zero_width: vec![] });
    assert_eq!(row_matches(&wide, "中 "), vec![(0, 2)]);
    assert_eq!(search_index(2, 3, true), 0);
    assert_eq!(search_index(0, 3, false), 2);
}

#[test]
fn accepting_never_submits_the_command() {
    let typed = accepted_suffix(Some("cargo"), "cargo", Some("cargo test")).unwrap();
    assert_eq!(typed, b" test");
    assert!(typed.iter().all(|&b| b >= 0x20 && b != 0x7f));
    let shift = Modifiers { control: false, alt: false, shift: true };
    let sgr = MouseMode { reporting: true, sgr: true };
    assert_eq!(mouse_report(3, 3, 2, true, shift, sgr, 28, 100), None);
    assert!(matches!(wheel_action(5, true, false, true, false), WheelAction::Scroll(5)));
}

#[test]
fn search_is_case_sensitive_and_left_to_right() {
    assert_eq!(row_matches(&cells("Abc abc ABC abc"), "abc"), vec![(4, 6), (12, 14)]);
    assert_eq!(row_matches(&cells("ababab"), "aba"), vec![(0, 2)]);
}

#[test]
fn large_wheel_and_button_values() {
    match wheel_action(i32::MIN, false, true, false, false) {
        WheelAction::Send(bytes) => assert_eq!(bytes.len(), 30 * 3),
        _ => panic!("full-screen programs get cursor keys"),
    }
    assert!(matches!(wheel_action(i32::MIN, true, false, true, false), WheelAction::Scroll(i32::MIN)));
    let sgr = MouseMode { reporting: true, sgr: true };
    assert_eq!(mouse_report(0, 0, 150, false, NONE, sgr, 28, 100), Some(Some(b"\x1b[<150;1;1M".to_vec())));
}
