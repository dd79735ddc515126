use winshell::config::{Config, CustomShell};
use winshell::shell::{discover, set_env_variable, LocatedShells, ShellError, ShellProfile};

fn bash_at(path: &str, bundled: bool) -> LocatedShells {
    LocatedShells { bash: Some((path.into(), bundled)), pwsh: None, powershell: None, cmd: None }
}

fn nothing() -> LocatedShells {
    LocatedShells { bash: None, pwsh: None, powershell: None, cmd: None }
}

fn config_with_shells() -> Config {
    let mut c = Config::default_config();
    c.env = vec![("EDITOR".into(), "vim".into()), ("Path".into(), "C:\\bin".into())];
    c.shells = vec![
        CustomShell {
            id: "wsl".into(),
            name: "Ubuntu (WSL)".into(),
            program: "C:\\Windows\\System32\\wsl.exe".into(),
            args: vec!["--distribution".into(), "Ubuntu".into()],
            env: vec![("PATH".into(), "/usr/bin".into())],
        },
        CustomShell {
            id: "bash".into(),
            name: "My Bash".into(),
            program: "/bin/bash".into(),
            args: vec!["--login".into(), "-i".into()],
            env: vec![],
        },
    ];
    c
}

#[test]
fn bash_then_custom_profiles() {
    let c = Config::default_config();
    let profiles = discover(&c, bash_at("C:/git/bin/bash.exe", true), true);
    assert_eq!(profiles.len(), 1);
    assert_eq!(profiles[0].id, "bash");
    assert_eq!(profiles[0].name, "Bash");
    assert!(profiles[0].bundled);
    assert!(discover(&c, nothing(), true).is_empty());
}

#[test]
fn custom_profiles_replace_and_override() {
    let c = config_with_shells();
    let profiles = discover(&c, bash_at("bash.exe", false), true);
    let ids: Vec<&str> = profiles.iter().map(|p| p.id.as_str()).collect();
    assert_eq!(ids, ["wsl", "bash"]);
    assert_eq!(profiles[1].name, "My Bash");
    assert_eq!(
        profiles[0].env,
        vec![("EDITOR".to_string(), "vim".to_string()), ("PATH".to_string(), "/usr/bin".to_string())]
    );
    let exact = discover(&c, nothing(), false);
    assert_eq!(exact[0].env.len(), 3);
}

#[test]
fn variables_are_replaced() {
    let mut env = vec![("a".to_string(), "1".to_string()), ("b".to_string(), "2".to_string())];
    set_env_variable(&mut env, &"A".to_string(), &"3".to_string(), true);
    assert_eq!(env, vec![("b".to_string(), "2".to_string()), ("A".to_string(), "3".to_string())]);
    set_env_variable(&mut env, &"a".to_string(), &"4".to_string(), false);
    assert_eq!(env.len(), 3);
}

fn profile(id: &str, args: Vec<String>, env: Vec<(String, String)>) -> ShellProfile {
    ShellProfile { id: id.into(), name: id.into(), program: "prog".into(), args, bundled: false, env }
}

#[test]
fn commands_of_profiles() {
    let bash = profile("bash", vec![], vec![("HOME".into(), "/tmp".into())]);
    assert!(bash.uses_integration());
    let command = bash.command("/work", "C:\\cfg\\bash-integration-v1.bash", false).unwrap();
    let argv: Vec<String> = command.get_argv().iter().map(|a| a.to_string_lossy().into_owned()).collect();
    assert_eq!(argv, ["prog", "--noprofile", "--rcfile", "C:/cfg/bash-integration-v1.bash", "-i"]);
    assert_eq!(command.get_cwd().unwrap().to_string_lossy(), "/work");
    assert_eq!(command.get_env("HOME").unwrap().to_string_lossy(), "/tmp");
    assert_eq!(command.get_env("TERM").unwrap().to_string_lossy(), "xterm-256color");
    assert_eq!(command.get_env("TERM_PROGRAM").unwrap().to_string_lossy(), "winshell");

    let login = profile("bash", vec!["--login".into(), "-i".into()], vec![]);
    assert!(!login.uses_integration());
    let command = login.command("/", "unused", true).unwrap();
    let argv: Vec<String> = command.get_argv().iter().map(|a| a.to_string_lossy().into_owned()).collect();
    assert_eq!(argv, ["prog", "--login", "-i"]);

    let broken = profile("pwsh", vec![], vec![("A=B".into(), "x".into())]);
    assert_eq!(broken.command("/", "", false).unwrap_err(), ShellError::InvalidEnvironment);
}

#[test]
fn profile_variables_take_precedence() {
    let bash = profile(
        "bash",
        vec![],
        vec![("TERM".into(), "dumb".into()), ("EDITOR".into(), "vim".into()), ("EDITOR".into(), "nano".into())],
    );
    let command = bash.command("/work", "rc", true).unwrap();
    assert_eq!(command.get_env("TERM").unwrap().to_string_lossy(), "dumb");
    assert_eq!(command.get_env("EDITOR").unwrap().to_string_lossy(), "nano");
    assert_eq!(command.get_env("COLORTERM").unwrap().to_string_lossy(), "truecolor");
    assert_eq!(command.get_env("MSYSTEM").unwrap().to_string_lossy(), "MINGW64");
    assert_eq!(command.get_env("CHERE_INVOKING").unwrap().to_string_lossy(), "1");
    assert_eq!(command.get_env("TERM_PROGRAM_VERSION").unwrap().to_string_lossy(), "0.1.0");
}

#[test]
fn powershell_and_cmd_are_discovered() {
    let located = LocatedShells {
        bash: Some(("bash.exe".into(), false)),
        pwsh: Some("C:/Program Files/PowerShell/7/pwsh.exe".into()),
        powershell: Some("C:/Windows/System32/WindowsPowerShell/v1.0/powershell.exe".into()),
        cmd: Some("C:/Windows/System32/cmd.exe".into()),
    };
    let mut c = Config::default_config();
    c.env = vec![("EDITOR".into(), "vim".into())];
    let profiles = discover(&c, located, true);
    let ids: Vec<&str> = profiles.iter().map(|p| p.id.as_str()).collect();
    assert_eq!(ids, ["bash", "pwsh", "powershell", "cmd"]);
    assert_eq!(profiles[1].name, "PowerShell 7");
    assert_eq!(profiles[2].name, "Windows PowerShell");
    assert_eq!(profiles[3].name, "Command Prompt");
    assert_eq!(profiles[3].program, "C:/Windows/System32/cmd.exe");
    assert!(profiles[1].args.is_empty() && !profiles[1].bundled);
    assert_eq!(profiles[2].env, c.env);
    let only_cmd = LocatedShells { bash: None, pwsh: None, powershell: None, cmd: Some("cmd.exe".into()) };
    c.shells = vec![CustomShell {
        id: "cmd".into(),
        name: "My CMD".into(),
        program: "cmd.exe".into(),
        args: vec!["/k".into()],
        env: vec![],
    }];
    let profiles = discover(&c, only_cmd, true);
    assert_eq!(profiles.len(), 1);
    assert_eq!(profiles[0].name, "My CMD");
}
