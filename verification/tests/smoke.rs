use winshell::smoke::{isolation_check, probe_command, probe_script};

#[test]
fn probes_and_their_commands() {
    assert_eq!(probe_script("bash").unwrap().0, "probe.bash");
    assert!(probe_script("bash").unwrap().1.ends_with("printf 'WINSHELL_%s\\n' SMOKE_PASS\n"));
    assert_eq!(probe_script("powershell").unwrap().0, "probe.ps1");
    assert_eq!(probe_script("cmd").unwrap().0, "probe.cmd");
    assert!(probe_script("fish").is_none());
    assert_eq!(probe_command("bash", "C:/tmp/it's/probe.bash", "unused"), "source 'C:/tmp/it'\\''s/probe.bash'\r");
    assert_eq!(
        probe_command("pwsh", "C:/o'k/probe.ps1", "unused"),
        "& ([scriptblock]::Create([IO.File]::ReadAllText('C:/o''k/probe.ps1')))\r"
    );
    assert_eq!(probe_command("cmd", "C:/x/probe.cmd", "C:\\x\\probe.cmd"), "call \"C:\\x\\probe.cmd\"\r");
    assert!(isolation_check("bash").starts_with("[[ -z"));
    assert!(isolation_check("cmd").starts_with("if not defined"));
}
