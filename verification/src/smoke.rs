//! The real-PTY smoke test: which probe script each shell runs, and how it is started.
use crate::text::{chars_of, str_eq, string_from_chars};
use vstd::prelude::*;

verus! {

broadcast use vstd::string::group_string_axioms;

/// The probe of a shell: the script's file name and its text; `None` for a
/// shell that the smoke test does not cover (it covers bash, pwsh,
/// powershell and cmd).
pub open spec fn probe_spec(id: Seq<char>) -> Option<(&'static str, &'static str)> {
    if id == "bash"@ {
        Some(("probe.bash", "[[ \"$WINSHELL_SMOKE_INHERITED\" == 'global value' ]] || exit 11\nexport WINSHELL_SMOKE_LOCAL='hello world'\n[[ \"$WINSHELL_SMOKE_LOCAL\" == 'hello world' ]] || exit 12\nwinshell_probe() { printf '%s' 'function-ok'; }\n[[ \"$(winshell_probe)\" == 'function-ok' ]] || exit 13\nalias winshell_alias='printf alias-ok'\n[[ \"$(winshell_alias)\" == 'alias-ok' ]] || exit 14\nprintf 'alpha\\nbeta\\n' | grep beta > 'file with spaces.txt'\n[[ \"$(cat 'file with spaces.txt')\" == beta ]] || exit 15\ngit --version >/dev/null || exit 16\nprintf '\\e[38;2;116;213;187m中文 UTF-8\\e[0m\\n'\nprintf 'WINSHELL_%s\\n' SMOKE_PASS\n"))
    } else if id == "pwsh"@ || id == "powershell"@ {
        Some(("probe.ps1", "$ErrorActionPreference = 'Stop'\nif ($env:WINSHELL_SMOKE_INHERITED -ne 'global value') { throw 'inherited environment' }\n$env:WINSHELL_SMOKE_LOCAL = 'hello world'\nfunction Test-WinShell { 'function-ok' }\nSet-Alias winshell_alias Test-WinShell\nif ((winshell_alias) -ne 'function-ok') { throw 'function/alias' }\n'alpha', 'beta' | Where-Object { $_ -eq 'beta' } | Set-Content 'file with spaces.txt'\nif ((Get-Content 'file with spaces.txt') -ne 'beta') { throw 'pipeline/redirection' }\nif ($env:WINSHELL_SMOKE_LOCAL -ne 'hello world') { throw 'local environment' }\nWrite-Output ('WINSHELL_' + 'SMOKE_PASS')\n"))
    } else if id == "cmd"@ {
        Some(("probe.cmd", "@echo off\r\nif not \"%WINSHELL_SMOKE_INHERITED%\"==\"global value\" exit /b 11\r\nset \"WINSHELL_SMOKE_LOCAL=hello world\"\r\nif not \"%WINSHELL_SMOKE_LOCAL%\"==\"hello world\" exit /b 12\r\necho beta| findstr beta > \"file with spaces.txt\"\r\nfindstr beta \"file with spaces.txt\" >nul || exit /b 13\r\necho WINSHELL_SMOKE_PASS\r\n"))
    } else {
        None
    }
}

pub fn probe_script(id: &str) -> (r: Option<(&'static str, &'static str)>)
    ensures
        r == probe_spec(id@),
{
    if str_eq(id, "bash") {
        Some(("probe.bash", "[[ \"$WINSHELL_SMOKE_INHERITED\" == 'global value' ]] || exit 11\nexport WINSHELL_SMOKE_LOCAL='hello world'\n[[ \"$WINSHELL_SMOKE_LOCAL\" == 'hello world' ]] || exit 12\nwinshell_probe() { printf '%s' 'function-ok'; }\n[[ \"$(winshell_probe)\" == 'function-ok' ]] || exit 13\nalias winshell_alias='printf alias-ok'\n[[ \"$(winshell_alias)\" == 'alias-ok' ]] || exit 14\nprintf 'alpha\\nbeta\\n' | grep beta > 'file with spaces.txt'\n[[ \"$(cat 'file with spaces.txt')\" == beta ]] || exit 15\ngit --version >/dev/null || exit 16\nprintf '\\e[38;2;116;213;187m中文 UTF-8\\e[0m\\n'\nprintf 'WINSHELL_%s\\n' SMOKE_PASS\n"))
    } else if str_eq(id, "pwsh") || str_eq(id, "powershell") {
        Some(("probe.ps1", "$ErrorActionPreference = 'Stop'\nif ($env:WINSHELL_SMOKE_INHERITED -ne 'global value') { throw 'inherited environment' }\n$env:WINSHELL_SMOKE_LOCAL = 'hello world'\nfunction Test-WinShell { 'function-ok' }\nSet-Alias winshell_alias Test-WinShell\nif ((winshell_alias) -ne 'function-ok') { throw 'function/alias' }\n'alpha', 'beta' | Where-Object { $_ -eq 'beta' } | Set-Content 'file with spaces.txt'\nif ((Get-Content 'file with spaces.txt') -ne 'beta') { throw 'pipeline/redirection' }\nif ($env:WINSHELL_SMOKE_LOCAL -ne 'hello world') { throw 'local environment' }\nWrite-Output ('WINSHELL_' + 'SMOKE_PASS')\n"))
    } else if str_eq(id, "cmd") {
        Some(("probe.cmd", "@echo off\r\nif not \"%WINSHELL_SMOKE_INHERITED%\"==\"global value\" exit /b 11\r\nset \"WINSHELL_SMOKE_LOCAL=hello world\"\r\nif not \"%WINSHELL_SMOKE_LOCAL%\"==\"hello world\" exit /b 12\r\necho beta| findstr beta > \"file with spaces.txt\"\r\nfindstr beta \"file with spaces.txt\" >nul || exit /b 13\r\necho WINSHELL_SMOKE_PASS\r\n"))
    } else {
        None
    }
}

/// `s` with each `'` replaced by `with`.
pub open spec fn replace_quotes(s: Seq<char>, with: Seq<char>) -> Seq<char>
    decreases s.len(),
{
    if s.len() == 0 {
        s
    } else {
        replace_quotes(s.drop_last(), with) + if s.last() == '\'' {
            with
        } else {
            seq![s.last()]
        }
    }
}

fn replaced_quotes(s: &str, with: &str) -> (r: Vec<char>)
    ensures
        r@ == replace_quotes(s@, with@),
{
    let c = chars_of(s);
    let w = chars_of(with);
    let mut r: Vec<char> = Vec::new();
    let mut i: usize = 0;
    while i < c.len()
        invariant
            i <= c.len(),
            c@ == s@,
            w@ == with@,
            r@ == replace_quotes(s@.take(i as int), with@),
        decreases c.len() - i,
    {
        assert(s@.take(i + 1).drop_last() =~= s@.take(i as int));
        let ghost before = r@;
        if c[i] == '\'' {
            let mut j: usize = 0;
            while j < w.len()
                invariant
                    j <= w.len(),
                    r@ == before + w@.take(j as int),
                decreases w.len() - j,
            {
                r.push(w[j]);
                j = j + 1;
                assert(r@ =~= before + w@.take(j as int));
            }
            assert(w@.take(j as int) =~= w@);
        } else {
            r.push(c[i]);
            assert(r@ =~= before + seq![c@[i as int]]);
        }
        i = i + 1;
    }
    assert(s@.take(i as int) =~= s@);
    r
}

fn append(out: &mut Vec<char>, s: &str)
    ensures
        final(out)@ == old(out)@ + s@,
{
    let c = chars_of(s);
    let mut i: usize = 0;
    while i < c.len()
        invariant
            i <= c.len(),
            c@ == s@,
            out@ == old(out)@ + s@.take(i as int),
        decreases c.len() - i,
    {
        out.push(c[i]);
        i = i + 1;
        assert(out@ =~= old(out)@ + s@.take(i as int));
    }
    assert(s@.take(i as int) =~= s@);
}

/// The line typed into the shell to run its probe: Bash sources `path` in
/// single quotes, PowerShell reads and runs it (with `'` doubled), and CMD
/// calls `native_path` in double quotes.
pub open spec fn probe_command_spec(id: Seq<char>, path: Seq<char>, native_path: Seq<char>) -> Seq<char> {
    if id == "bash"@ {
        "source '"@ + replace_quotes(path, "'\\''"@) + "'\r"@
    } else if id == "pwsh"@ || id == "powershell"@ {
        "& ([scriptblock]::Create([IO.File]::ReadAllText('"@ + replace_quotes(path, "''"@) + "')))\r"@
    } else {
        "call \""@ + native_path + "\"\r"@
    }
}

pub fn probe_command(id: &str, path: &str, native_path: &str) -> (r: String)
    ensures
        r@ == probe_command_spec(id@, path@, native_path@),
{
    let mut out: Vec<char> = Vec::new();
    if str_eq(id, "bash") {
        append(&mut out, "source '");
        let q = replaced_quotes(path, "'\\''");
        let ghost before = out@;
        let mut i: usize = 0;
        while i < q.len()
            invariant
                i <= q.len(),
                out@ == before + q@.take(i as int),
            decreases q.len() - i,
        {
            out.push(q[i]);
            i = i + 1;
            assert(out@ =~= before + q@.take(i as int));
        }
        assert(q@.take(i as int) =~= q@);
        append(&mut out, "'\r");
    } else if str_eq(id, "pwsh") || str_eq(id, "powershell") {
        append(&mut out, "& ([scriptblock]::Create([IO.File]::ReadAllText('");
        let q = replaced_quotes(path, "''");
        let ghost before = out@;
        let mut i: usize = 0;
        while i < q.len()
            invariant
                i <= q.len(),
                out@ == before + q@.take(i as int),
            decreases q.len() - i,
        {
            out.push(q[i]);
            i = i + 1;
            assert(out@ =~= before + q@.take(i as int));
        }
        assert(q@.take(i as int) =~= q@);
        append(&mut out, "')))\r");
    } else {
        append(&mut out, "call \"");
        append(&mut out, native_path);
        append(&mut out, "\"\r");
    }
    string_from_chars(&out)
}

/// The line that checks, in a second session, that the first session's
/// exported variable did not leak into it.
pub fn isolation_check(id: &str) -> (r: &'static str)
    ensures
        r@ == (if id@ == "bash"@ {
            "[[ -z ${WINSHELL_SMOKE_LOCAL+x} ]] && printf 'WINSHELL_%s\\n' ISOLATED\r"@
        } else if id@ == "pwsh"@ || id@ == "powershell"@ {
            "if (-not $env:WINSHELL_SMOKE_LOCAL) { Write-Output ('WINSHELL_' + 'ISOLATED') }\r"@
        } else {
            "if not defined WINSHELL_SMOKE_LOCAL set WINSHELL_SMOKE_RESULT=ISOLATED\recho WINSHELL_%WINSHELL_SMOKE_RESULT%\r"@
        }),
{
    if str_eq(id, "bash") {
        "[[ -z ${WINSHELL_SMOKE_LOCAL+x} ]] && printf 'WINSHELL_%s\\n' ISOLATED\r"
    } else if str_eq(id, "pwsh") || str_eq(id, "powershell") {
        "if (-not $env:WINSHELL_SMOKE_LOCAL) { Write-Output ('WINSHELL_' + 'ISOLATED') }\r"
    } else {
        "if not defined WINSHELL_SMOKE_LOCAL set WINSHELL_SMOKE_RESULT=ISOLATED\recho WINSHELL_%WINSHELL_SMOKE_RESULT%\r"
    }
}

} // verus!
