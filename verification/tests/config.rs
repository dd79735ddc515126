use winshell::config::{blank, env_entry_is_valid, Config, ConfigError, CustomShell};

fn shell(id: &str, name: &str, env: Vec<(String, String)>) -> CustomShell {
    CustomShell {
        id: id.into(),
        name: name.into(),
        program: "wsl.exe".into(),
        args: vec![],
        env,
    }
}

#[test]
fn defaults() {
    let c = Config::default_config();
    assert_eq!(c.language, "system");
    assert_eq!(c.theme, "midnight");
    assert_eq!(c.scrollback, 10_000);
    assert_eq!(c.default_shell, "bash");
    assert!(c.suggestions && c.sidebar);
    assert!(c.env.is_empty() && c.shells.is_empty());
}

#[test]
fn scrollback_is_clamped() {
    let mut c = Config::default_config();
    c.scrollback = 5;
    assert_eq!(c.validate().unwrap().scrollback, 100);
    let mut c = Config::default_config();
    c.scrollback = 1_000_000;
    let accepted = c.validate().unwrap();
    assert_eq!(accepted.scrollback, 100_000);
    assert_eq!(accepted.validate().unwrap().scrollback, 100_000);
}

#[test]
fn each_refusal() {
    let mut c = Config::default_config();
    c.theme = "solarized".into();
    assert!(matches!(c.validate(), Err(ConfigError::UnknownTheme(t)) if t == "solarized"));
    let mut c = Config::default_config();
    c.custom_theme.panel = Some("#12345".into());
    assert!(matches!(c.validate(), Err(ConfigError::InvalidColor)));
    let mut c = Config::default_config();
    c.shells.push(shell(" \u{3000}", "Name", vec![]));
    assert!(matches!(c.validate(), Err(ConfigError::IncompleteShell)));
    let mut c = Config::default_config();
    c.env.push(("A=B".into(), "x".into()));
    assert!(matches!(c.validate(), Err(ConfigError::InvalidEnvironment)));
    let mut c = Config::default_config();
    c.shells.push(shell("wsl", "WSL", vec![("KEY".into(), "a\0b".into())]));
    assert!(matches!(c.validate(), Err(ConfigError::InvalidEnvironment)));
    let mut c = Config::default_config();
    c.theme = "custom".into();
    c.custom_theme.background = Some("#000000".into());
    c.shells.push(shell("wsl", "WSL", vec![("WSLENV".into(), "X/p".into())]));
    assert!(c.validate().is_ok());
}

#[test]
fn blanks_and_variables() {
    assert!(blank(""));
    assert!(blank(" \t\n\u{a0}"));
    assert!(!blank(" a "));
    assert!(env_entry_is_valid("PATH", "C:\\bin"));
    assert!(!env_entry_is_valid("", "x"));
    assert!(!env_entry_is_valid("A\0", "x"));
    assert!(env_entry_is_valid("A", ""));
}
