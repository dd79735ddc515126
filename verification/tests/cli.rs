use winshell::cli::{parse_args, parse_command, CliCommand, CliError, PathFacts};

fn args(list: &[&str]) -> Vec<String> {
    list.iter().map(|s| s.to_string()).collect()
}

fn facts(dirs: &[bool], after: &[bool]) -> PathFacts {
    PathFacts { is_dir: dirs.to_vec(), is_dir_after_prefix: after.to_vec() }
}

#[test]
fn options_adjust_the_configuration() {
    let ids = args(&["bash", "wsl"]);
    let a = args(&["--cwd=C:/work", "--shell", "wsl", "D:/proj"]);
    let r = parse_args(&a, &facts(&[false, false, false, true], &[true, false, false, false]), &ids, false).unwrap();
    assert_eq!(r.working_directory.as_deref(), Some("D:/proj"));
    assert_eq!(r.default_shell.as_deref(), Some("wsl"));
    assert!(r.rest.is_empty());
    let a = args(&["--doctor", "notes.txt", "--shell=bash"]);
    let r = parse_args(&a, &facts(&[false, false, false], &[false, false, false]), &ids, false).unwrap();
    assert_eq!(r.rest, args(&["--doctor", "notes.txt"]));
    assert_eq!(r.default_shell.as_deref(), Some("bash"));
    assert!(r.working_directory.is_none());
}

#[test]
fn refused_command_lines() {
    let ids = args(&["bash"]);
    let none = |n: usize| facts(&vec![false; n], &vec![false; n]);
    assert!(matches!(parse_args(&args(&["--cwd"]), &none(1), &ids, false), Err(CliError::MissingValue(o)) if o == "--cwd"));
    assert!(matches!(parse_args(&args(&["--shell"]), &none(1), &ids, false), Err(CliError::MissingValue(o)) if o == "--shell"));
    assert!(matches!(parse_args(&args(&["--cwd", "X"]), &none(2), &ids, false), Err(CliError::NotADirectory(d)) if d == "X"));
    assert!(matches!(parse_args(&args(&["--cwd=Y"]), &none(1), &ids, false), Err(CliError::NotADirectory(d)) if d == "Y"));
    assert!(matches!(parse_args(&args(&["--shell=fish"]), &none(1), &ids, false), Err(CliError::UnknownShell(s)) if s == "fish"));
    assert!(matches!(parse_args(&args(&["--shell", "zsh"]), &none(2), &ids, false), Err(CliError::UnknownShell(s)) if s == "zsh"));
    assert!(matches!(parse_args(&args(&["--doctor"]), &none(1), &ids, true), Err(CliError::ConfigurationFailed)));
    assert!(parse_args(&args(&[]), &none(0), &ids, true).is_ok());
}

#[test]
fn commands() {
    assert!(matches!(parse_command(&args(&["-V"])), Ok(CliCommand::Version)));
    assert!(matches!(parse_command(&args(&["--help"])), Ok(CliCommand::Help)));
    assert!(matches!(parse_command(&args(&["--doctor"])), Ok(CliCommand::Doctor)));
    assert!(matches!(parse_command(&args(&["--smoke-test"])), Ok(CliCommand::SmokeTest(id)) if id == "bash"));
    assert!(matches!(parse_command(&args(&["--smoke-test", "cmd"])), Ok(CliCommand::SmokeTest(id)) if id == "cmd"));
    assert!(matches!(parse_command(&args(&["--ui-smoke-test", "r.txt"])), Ok(CliCommand::UiSmokeTest(p)) if p == "r.txt"));
    assert!(matches!(parse_command(&args(&["--ui-smoke-test"])), Err(CliError::MissingValue(o)) if o == "--ui-smoke-test"));
    assert!(matches!(parse_command(&args(&["--bogus"])), Err(CliError::UnknownArgument(a)) if a == "--bogus"));
}
