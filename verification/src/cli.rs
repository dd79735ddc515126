//! The command line: options that adjust the configuration, and the commands
//! that run instead of the desktop application.
use crate::text::{chars_eq, chars_of, starts_with, str_eq, string_from_chars, strings_view};
use vstd::prelude::*;

verus! {

broadcast use vstd::string::group_string_axioms;

/// Why a command line is refused.
#[derive(Clone, Debug)]
pub enum CliError {
    /// A directory given with `--cwd` does not exist; the directory is given.
    NotADirectory(String),
    /// No shell profile has the id given with `--shell`; the id is given.
    UnknownShell(String),
    /// An option lacks its value; the option is given.
    MissingValue(String),
    /// The configuration could not be loaded; commands are not run then.
    ConfigurationFailed,
    /// The first argument is not a command; it is given.
    UnknownArgument(String),
}

/// What the arguments ask of the configuration and which arguments remain.
pub struct CliRequest {
    pub working_directory: Option<String>,
    pub default_shell: Option<String>,
    pub rest: Vec<String>,
}

/// Facts about the file system that the arguments depend on: for each
/// argument, whether it names a directory, and whether what follows `--cwd=`
/// in it does.
pub struct PathFacts {
    pub is_dir: Vec<bool>,
    pub is_dir_after_prefix: Vec<bool>,
}

/// The parsing state: working directory, default shell and remaining arguments.
pub type CliState = (Option<Seq<char>>, Option<Seq<char>>, Seq<Seq<char>>);

/// An error as text: which error, and the text that it carries.
pub type CliErrorView = (int, Seq<char>);

pub open spec fn error_view(e: CliError) -> CliErrorView {
    match e {
        CliError::NotADirectory(s) => (0, s@),
        CliError::UnknownShell(s) => (1, s@),
        CliError::MissingValue(s) => (2, s@),
        CliError::ConfigurationFailed => (3, Seq::<char>::empty()),
        CliError::UnknownArgument(s) => (4, s@),
    }
}

pub open spec fn cwd_option() -> Seq<char> {
    "--cwd="@
}

pub open spec fn shell_option() -> Seq<char> {
    "--shell="@
}

/// Parse the arguments from position `i` on: `--cwd=DIR` and `--cwd DIR` set
/// the working directory (which must exist), `--shell=ID` and `--shell ID`
/// the default shell (which must be a profile); other options are kept, and a
/// plain argument sets the working directory where it names one and is kept otherwise.
pub open spec fn parse_from(
    args: Seq<Seq<char>>,
    dirs: Seq<bool>,
    dirs_after_prefix: Seq<bool>,
    ids: Seq<Seq<char>>,
    i: int,
    st: CliState,
) -> Result<CliState, CliErrorView>
    decreases args.len() - i,
{
    if i < 0 || i >= args.len() {
        Ok(st)
    } else {
        let arg = args[i];
        if starts_with(arg, cwd_option()) {
            let value = arg.skip(6);
            if !dirs_after_prefix[i] {
                Err((0, value))
            } else {
                parse_from(args, dirs, dirs_after_prefix, ids, i + 1, (Some(value), st.1, st.2))
            }
        } else if starts_with(arg, shell_option()) {
            let value = arg.skip(8);
            if !ids.contains(value) {
                Err((1, value))
            } else {
                parse_from(args, dirs, dirs_after_prefix, ids, i + 1, (st.0, Some(value), st.2))
            }
        } else if arg == "--cwd"@ {
            if i + 1 >= args.len() {
                Err((2, "--cwd"@))
            } else if !dirs[i + 1] {
                Err((0, args[i + 1]))
            } else {
                parse_from(args, dirs, dirs_after_prefix, ids, i + 2, (Some(args[i + 1]), st.1, st.2))
            }
        } else if arg == "--shell"@ {
            if i + 1 >= args.len() {
                Err((2, "--shell"@))
            } else if !ids.contains(args[i + 1]) {
                Err((1, args[i + 1]))
            } else {
                parse_from(args, dirs, dirs_after_prefix, ids, i + 2, (st.0, Some(args[i + 1]), st.2))
            }
        } else if arg.len() > 0 && arg[0] == '-' {
            parse_from(args, dirs, dirs_after_prefix, ids, i + 1, (st.0, st.1, st.2.push(arg)))
        } else if dirs[i] {
            parse_from(args, dirs, dirs_after_prefix, ids, i + 1, (Some(arg), st.1, st.2))
        } else {
            parse_from(args, dirs, dirs_after_prefix, ids, i + 1, (st.0, st.1, st.2.push(arg)))
        }
    }
}

/// The outcome of the command line: parsed as above, and refused where
/// arguments remain for a command while the configuration failed to load.
pub open spec fn parse_args_spec(
    args: Seq<Seq<char>>,
    dirs: Seq<bool>,
    dirs_after_prefix: Seq<bool>,
    ids: Seq<Seq<char>>,
    config_failed: bool,
) -> Result<CliState, CliErrorView> {
    match parse_from(args, dirs, dirs_after_prefix, ids, 0, (None, None, Seq::empty())) {
        Ok(st) => if st.2.len() > 0 && config_failed {
            Err((3, Seq::<char>::empty()))
        } else {
            Ok(st)
        },
        Err(e) => Err(e),
    }
}

fn contains_id(ids: &Vec<String>, value: &Vec<char>) -> (r: bool)
    ensures
        r == strings_view(ids@).contains(value@),
{
    let mut i: usize = 0;
    while i < ids.len()
        invariant
            i <= ids.len(),
            forall|k: int| 0 <= k < i ==> (#[trigger] ids@[k])@ != value@,
        decreases ids.len() - i,
    {
        let id = chars_of(ids[i].as_str());
        if chars_eq(&id, value) {
            assert(strings_view(ids@)[i as int] == value@);
            return true;
        }
        i = i + 1;
    }
    assert forall|k: int| 0 <= k < strings_view(ids@).len() implies strings_view(ids@)[k]
        != value@ by {
        assert(strings_view(ids@)[k] == ids@[k]@);
    }
    false
}

fn suffix(v: &Vec<char>, from: usize) -> (r: Vec<char>)
    requires
        from <= v.len(),
    ensures
        r@ == v@.skip(from as int),
{
    let mut r: Vec<char> = Vec::new();
    let mut i = from;
    while i < v.len()
        invariant
            from <= i <= v.len(),
            r@ == v@.subrange(from as int, i as int),
        decreases v.len() - i,
    {
        r.push(v[i]);
        i = i + 1;
    }
    r
}

pub open spec fn request_view(r: CliRequest) -> CliState {
    (
        match r.working_directory {
            Some(s) => Some(s@),
            None => None,
        },
        match r.default_shell {
            Some(s) => Some(s@),
            None => None,
        },
        strings_view(r.rest@),
    )
}

/// Parse the command line. `facts` tells which arguments name directories,
/// `profile_ids` are the ids of the shell profiles, and `config_failed`
/// whether the configuration failed to load.
pub fn parse_args(
    args: &Vec<String>,
    facts: &PathFacts,
    profile_ids: &Vec<String>,
    config_failed: bool,
) -> (r: Result<CliRequest, CliError>)
    requires
        facts.is_dir.len() == args.len(),
        facts.is_dir_after_prefix.len() == args.len(),
    ensures
        match r {
            Ok(req) => parse_args_spec(
                strings_view(args@),
                facts.is_dir@,
                facts.is_dir_after_prefix@,
                strings_view(profile_ids@),
                config_failed,
            ) == Ok::<CliState, CliErrorView>(request_view(req)),
            Err(e) => parse_args_spec(
                strings_view(args@),
                facts.is_dir@,
                facts.is_dir_after_prefix@,
                strings_view(profile_ids@),
                config_failed,
            ) == Err::<CliState, CliErrorView>(error_view(e)),
        },
{
    let ghost a = strings_view(args@);
    let ghost d = facts.is_dir@;
    let ghost dp = facts.is_dir_after_prefix@;
    let ghost ids = strings_view(profile_ids@);
    let cwd_prefix = chars_of("--cwd=");
    let shell_prefix = chars_of("--shell=");
    proof {
        reveal_strlit("--cwd=");
        reveal_strlit("--shell=");
    }
    let mut req = CliRequest { working_directory: None, default_shell: None, rest: Vec::new() };
    assert(request_view(req) =~= (None::<Seq<char>>, None::<Seq<char>>, Seq::<Seq<char>>::empty()));
    let mut i: usize = 0;
    while i < args.len()
        invariant
            i <= args.len(),
            a == strings_view(args@),
            d == facts.is_dir@,
            dp == facts.is_dir_after_prefix@,
            d.len() == args.len(),
            dp.len() == args.len(),
            ids == strings_view(profile_ids@),
            cwd_prefix@ == cwd_option(),
            shell_prefix@ == shell_option(),
            cwd_option().len() == 6,
            shell_option().len() == 8,
            parse_from(a, d, dp, ids, 0, (None, None, Seq::empty())) == parse_from(
                a,
                d,
                dp,
                ids,
                i as int,
                request_view(req),
            ),
        decreases args.len() - i,
    {
        let arg = chars_of(args[i].as_str());
        assert(a[i as int] == arg@);
        let ghost before = request_view(req);
        if crate::text::chars_start_with(&arg, &cwd_prefix) {
            let value = suffix(&arg, 6);
            if !facts.is_dir_after_prefix[i] {
                return Err(CliError::NotADirectory(string_from_chars(&value)));
            }
            req.working_directory = Some(string_from_chars(&value));
            i = i + 1;
            assert(request_view(req) == (Some(value@), before.1, before.2));
        } else if crate::text::chars_start_with(&arg, &shell_prefix) {
            let value = suffix(&arg, 8);
            if !contains_id(profile_ids, &value) {
                return Err(CliError::UnknownShell(string_from_chars(&value)));
            }
            req.default_shell = Some(string_from_chars(&value));
            i = i + 1;
            assert(request_view(req) == (before.0, Some(value@), before.2));
        } else if str_eq(args[i].as_str(), "--cwd") {
            if i + 1 >= args.len() {
                return Err(CliError::MissingValue("--cwd".to_owned()));
            }
            assert(a[i + 1] == args@[i + 1]@);
            if !facts.is_dir[i + 1] {
                return Err(CliError::NotADirectory(args[i + 1].clone()));
            }
            req.working_directory = Some(args[i + 1].clone());
            i = i + 2;
            assert(request_view(req) == (Some(a[i - 1]), before.1, before.2));
        } else if str_eq(args[i].as_str(), "--shell") {
            if i + 1 >= args.len() {
                return Err(CliError::MissingValue("--shell".to_owned()));
            }
            assert(a[i + 1] == args@[i + 1]@);
            let value = chars_of(args[i + 1].as_str());
            if !contains_id(profile_ids, &value) {
                return Err(CliError::UnknownShell(args[i + 1].clone()));
            }
            req.default_shell = Some(args[i + 1].clone());
            i = i + 2;
            assert(request_view(req) == (before.0, Some(a[i - 1]), before.2));
        } else if (arg.len() > 0 && arg[0] == '-') || !facts.is_dir[i] {
            req.rest.push(args[i].clone());
            i = i + 1;
            assert(request_view(req).2 =~= before.2.push(arg@));
        } else {
            req.working_directory = Some(args[i].clone());
            i = i + 1;
            assert(request_view(req) == (Some(arg@), before.1, before.2));
        }
    }
    if req.rest.len() > 0 && config_failed {
        return Err(CliError::ConfigurationFailed);
    }
    Ok(req)
}

/// A command of the command line.
#[derive(Clone, Debug)]
pub enum CliCommand {
    Version,
    Help,
    Doctor,
    /// A PTY smoke test of the shell with this id.
    SmokeTest(String),
    /// A desktop acceptance test that writes its report to this path.
    UiSmokeTest(String),
}

/// A command as text: which command, and the text that it carries.
pub type CommandView = (int, Seq<char>);

pub open spec fn command_view(c: CliCommand) -> CommandView {
    match c {
        CliCommand::Version => (0, Seq::<char>::empty()),
        CliCommand::Help => (1, Seq::<char>::empty()),
        CliCommand::Doctor => (2, Seq::<char>::empty()),
        CliCommand::SmokeTest(s) => (3, s@),
        CliCommand::UiSmokeTest(s) => (4, s@),
    }
}

/// The command that the remaining arguments name; the smoke test defaults to Bash.
pub open spec fn command_spec(rest: Seq<Seq<char>>) -> Result<CommandView, CliErrorView> {
    let first = rest[0];
    if first == "--version"@ || first == "-V"@ {
        Ok((0, Seq::<char>::empty()))
    } else if first == "--help"@ || first == "-h"@ {
        Ok((1, Seq::<char>::empty()))
    } else if first == "--doctor"@ {
        Ok((2, Seq::<char>::empty()))
    } else if first == "--smoke-test"@ {
        Ok(
            (
                3,
                if rest.len() > 1 {
                    rest[1]
                } else {
                    "bash"@
                },
            ),
        )
    } else if first == "--ui-smoke-test"@ {
        if rest.len() > 1 {
            Ok((4, rest[1]))
        } else {
            Err((2, "--ui-smoke-test"@))
        }
    } else {
        Err((4, first))
    }
}

/// The command that the remaining arguments name.
pub fn parse_command(rest: &Vec<String>) -> (r: Result<CliCommand, CliError>)
    requires
        rest.len() > 0,
    ensures
        match r {
            Ok(c) => command_spec(strings_view(rest@)) == Ok::<CommandView, CliErrorView>(
                command_view(c),
            ),
            Err(e) => command_spec(strings_view(rest@)) == Err::<CommandView, CliErrorView>(
                error_view(e),
            ),
        },
{
    let first = rest[0].as_str();
    assert(strings_view(rest@)[0] == first@);
    if str_eq(first, "--version") || str_eq(first, "-V") {
        Ok(CliCommand::Version)
    } else if str_eq(first, "--help") || str_eq(first, "-h") {
        Ok(CliCommand::Help)
    } else if str_eq(first, "--doctor") {
        Ok(CliCommand::Doctor)
    } else if str_eq(first, "--smoke-test") {
        if rest.len() > 1 {
            assert(strings_view(rest@)[1] == rest@[1]@);
            Ok(CliCommand::SmokeTest(rest[1].clone()))
        } else {
            Ok(CliCommand::SmokeTest("bash".to_owned()))
        }
    } else if str_eq(first, "--ui-smoke-test") {
        if rest.len() > 1 {
            assert(strings_view(rest@)[1] == rest@[1]@);
            Ok(CliCommand::UiSmokeTest(rest[1].clone()))
        } else {
            Err(CliError::MissingValue("--ui-smoke-test".to_owned()))
        }
    } else {
        Err(CliError::UnknownArgument(rest[0].clone()))
    }
}

} // verus!
