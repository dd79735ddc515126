//! Shell profiles: the integrated Bash and the profiles of the configuration,
//! and the command line that starts each.
use crate::config::{env_entry_is_valid, valid_env_entry, Config, CustomShell};
use crate::text::{
    chars_eq, chars_of, clone_pairs, clone_strings, pairs_view, str_eq, string_from_chars,
    strings_view,
};
use portable_pty::CommandBuilder;
use vstd::prelude::*;

verus! {

broadcast use vstd::string::group_string_axioms;

#[verifier::external_type_specification]
#[verifier::external_body]
pub struct ExCommandBuilder(CommandBuilder);

/// The argument vector of a command: the program, then its arguments.
pub uninterp spec fn command_args(c: CommandBuilder) -> Seq<Seq<char>>;

/// The working directory set on a command, if any.
pub uninterp spec fn command_cwd(c: CommandBuilder) -> Option<Seq<char>>;

/// `CommandBuilder::new`: the argument vector holds the program alone, and no
/// working directory is set. The environment that it starts from is the
/// process's own, and is not stated.
#[verifier::external_body]
fn command_new(program: &str) -> (c: CommandBuilder)
    ensures
        command_args(c) == seq![program@],
        command_cwd(c) is None,
{
    CommandBuilder::new(program)
}

/// `CommandBuilder::arg`: appends one argument, and changes nothing else.
#[verifier::external_body]
fn command_arg(c: &mut CommandBuilder, arg: &str)
    requires
        command_args(*old(c)).len() > 0,
    ensures
        command_args(*final(c)) == command_args(*old(c)).push(arg@),
        command_cwd(*final(c)) == command_cwd(*old(c)),
        forall|n: Seq<char>|
            #![trigger command_env_value(*final(c), n)]
            command_env_value(*final(c), n) == command_env_value(*old(c), n),
{
    c.arg(arg)
}

/// The value that the environment variable `name` has in a command
/// (`CommandBuilder::get_env`), as text; `None` where it is unset.
pub uninterp spec fn command_env_value(c: CommandBuilder, name: Seq<char>) -> Option<Seq<char>>;

/// Whether every character of `s` is ASCII.
pub open spec fn ascii_text(s: Seq<char>) -> bool {
    forall|i: int| 0 <= i < s.len() ==> (#[trigger] s[i] as u32) < 128
}

/// `CommandBuilder::env`: sets an environment variable of the child. The
/// argument vector and working directory are unchanged. `name` then has
/// `value`, and a variable whose value changed has `value`: it is the same
/// variable, since the crate keys variables by their name, folded to lower
/// case on Windows. Of two ASCII names that differ other than in ASCII case,
/// setting one leaves the other alone. Which other names denote the same
/// variable on Windows (Unicode case folding) is not stated.
#[verifier::external_body]
fn command_env(c: &mut CommandBuilder, name: &str, value: &str)
    ensures
        command_args(*final(c)) == command_args(*old(c)),
        command_cwd(*final(c)) == command_cwd(*old(c)),
        command_env_value(*final(c), name@) == Some(value@),
        forall|n: Seq<char>|
            #![trigger command_env_value(*final(c), n)]
            command_env_value(*final(c), n) == command_env_value(*old(c), n)
                || command_env_value(*final(c), n) == Some(value@),
        forall|n: Seq<char>|
            #![trigger command_env_value(*final(c), n)]
            ascii_text(n) && ascii_text(name@) && !same_variable(n, name@, true)
                ==> command_env_value(*final(c), n) == command_env_value(*old(c), n),
{
    c.env(name, value)
}

/// `CommandBuilder::cwd`: sets the working directory, and changes nothing else.
#[verifier::external_body]
fn command_set_cwd(c: &mut CommandBuilder, dir: &str)
    ensures
        command_args(*final(c)) == command_args(*old(c)),
        command_cwd(*final(c)) == Some(dir@),
        forall|n: Seq<char>|
            #![trigger command_env_value(*final(c), n)]
            command_env_value(*final(c), n) == command_env_value(*old(c), n),
{
    c.cwd(dir)
}

/// The version reported to shells in `TERM_PROGRAM_VERSION`.
pub const VERSION: &'static str = "0.1.0";

#[derive(Clone, Debug)]
pub struct ShellProfile {
    pub id: String,
    pub name: String,
    pub program: String,
    pub args: Vec<String>,
    pub bundled: bool,
    pub env: Vec<(String, String)>,
}

/// A profile as text: id, name, program, arguments, whether it is the bundled
/// Bash, and its environment overrides.
pub type ProfileView = (
    Seq<char>,
    Seq<char>,
    Seq<char>,
    Seq<Seq<char>>,
    bool,
    Seq<(Seq<char>, Seq<char>)>,
);

impl ShellProfile {
    pub open spec fn view(self) -> ProfileView {
        (
            self.id@,
            self.name@,
            self.program@,
            strings_view(self.args@),
            self.bundled,
            pairs_view(self.env@),
        )
    }
}

pub open spec fn ascii_fold(c: char) -> char {
    if 'A' <= c && c <= 'Z' {
        ((c as u32) + 32) as char
    } else {
        c
    }
}

/// Whether two variable names denote the same variable: exactly equal, or on
/// Windows equal but for ASCII case.
pub open spec fn same_variable(a: Seq<char>, b: Seq<char>, ignore_case: bool) -> bool {
    if ignore_case {
        a.len() == b.len() && forall|i: int| 0 <= i < a.len() ==> ascii_fold(#[trigger] a[i])
            == ascii_fold(b[i])
    } else {
        a == b
    }
}

/// `env` with the variable `name` set to `value`, replacing any variable that
/// `name` denotes.
pub open spec fn set_variable(
    env: Seq<(Seq<char>, Seq<char>)>,
    name: Seq<char>,
    value: Seq<char>,
    ignore_case: bool,
) -> Seq<(Seq<char>, Seq<char>)> {
    env.filter(|p: (Seq<char>, Seq<char>)| !same_variable(p.0, name, ignore_case)).push(
        (name, value),
    )
}

/// The global environment overridden by the first `k` variables of a profile's own.
pub open spec fn overridden_env(
    global: Seq<(Seq<char>, Seq<char>)>,
    own: Seq<(Seq<char>, Seq<char>)>,
    k: int,
    ignore_case: bool,
) -> Seq<(Seq<char>, Seq<char>)>
    decreases k,
{
    if k <= 0 {
        global
    } else {
        set_variable(
            overridden_env(global, own, k - 1, ignore_case),
            own[k - 1].0,
            own[k - 1].1,
            ignore_case,
        )
    }
}

/// Whether the variable of `own` at position `j` is set again by a later one
/// of the first `k`.
pub open spec fn reset_later(own: Seq<(Seq<char>, Seq<char>)>, j: int, k: int, ignore_case: bool) -> bool {
    exists|l: int| j < l < k && same_variable(#[trigger] own[l].0, own[j].0, ignore_case)
}

/// Whether one of the first `k` variables of `own` denotes the variable `name`.
pub open spec fn denoted_by(name: Seq<char>, own: Seq<(Seq<char>, Seq<char>)>, k: int, ignore_case: bool) -> bool {
    exists|j: int| 0 <= j < k && same_variable(name, #[trigger] own[j].0, ignore_case)
}

proof fn lemma_same_variable_symmetric(a: Seq<char>, b: Seq<char>, ignore_case: bool)
    ensures
        same_variable(a, b, ignore_case) == same_variable(b, a, ignore_case),
{
    if ignore_case && a.len() == b.len() {
        if same_variable(a, b, true) {
            assert forall|i: int| 0 <= i < b.len() implies ascii_fold(#[trigger] b[i]) == ascii_fold(
                a[i],
            ) by {
                assert(ascii_fold(a[i]) == ascii_fold(b[i]));
            }
        }
        if same_variable(b, a, true) {
            assert forall|i: int| 0 <= i < a.len() implies ascii_fold(#[trigger] a[i]) == ascii_fold(
                b[i],
            ) by {
                assert(ascii_fold(b[i]) == ascii_fold(a[i]));
            }
        }
    }
}

/// A shell's own variables take precedence over the global ones. In the
/// environment of a profile of the configuration, a global variable remains
/// where, and only where, none of the shell's own denotes it; each of the
/// shell's own variables is there unless a later one of them sets the same
/// variable; and nothing else is.
pub proof fn lemma_own_env_overrides(
    global: Seq<(Seq<char>, Seq<char>)>,
    own: Seq<(Seq<char>, Seq<char>)>,
    k: int,
    ignore_case: bool,
)
    requires
        0 <= k <= own.len(),
    ensures
        forall|i: int|
            0 <= i < overridden_env(global, own, k, ignore_case).len() ==> {
                let e = #[trigger] overridden_env(global, own, k, ignore_case)[i];
                ||| global.contains(e) && !denoted_by(e.0, own, k, ignore_case)
                ||| exists|j: int| 0 <= j < k && e == own[j] && !reset_later(own, j, k, ignore_case)
            },
        forall|j: int|
            0 <= j < k && !reset_later(own, j, k, ignore_case) ==> overridden_env(
                global,
                own,
                k,
                ignore_case,
            ).contains(#[trigger] own[j]),
        forall|i: int|
            0 <= i < global.len() && !denoted_by(global[i].0, own, k, ignore_case) ==> overridden_env(
                global,
                own,
                k,
                ignore_case,
            ).contains(#[trigger] global[i]),
    decreases k,
{
    if k > 0 {
        lemma_own_env_overrides(global, own, k - 1, ignore_case);
        let prev = overridden_env(global, own, k - 1, ignore_case);
        let name = own[k - 1].0;
        let pred = |p: (Seq<char>, Seq<char>)| !same_variable(p.0, name, ignore_case);
        let f = prev.filter(pred);
        let r = overridden_env(global, own, k, ignore_case);
        assert(r == f.push(own[k - 1]));
        assert forall|i: int| 0 <= i < r.len() implies {
            let e = #[trigger] r[i];
            ||| global.contains(e) && !denoted_by(e.0, own, k, ignore_case)
            ||| exists|j: int| 0 <= j < k && e == own[j] && !reset_later(own, j, k, ignore_case)
        } by {
            let e = r[i];
            if i == r.len() - 1 {
                assert(e == own[k - 1]);
                assert(!reset_later(own, k - 1, k, ignore_case));
            } else {
                assert(e == f[i]);
                prev.lemma_filter_pred(pred, i);
                assert(f.contains(e));
                prev.lemma_filter_contains_rev(pred, e);
                let m = choose|m: int| 0 <= m < prev.len() && prev[m] == e;
                assert(prev[m] == e);
                if global.contains(e) && !denoted_by(e.0, own, k - 1, ignore_case) {
                    assert(!denoted_by(e.0, own, k, ignore_case)) by {
                        if denoted_by(e.0, own, k, ignore_case) {
                            let j = choose|j: int| 0 <= j < k && same_variable(e.0, #[trigger] own[j].0, ignore_case);
                            assert(j == k - 1);
                        }
                    }
                } else {
                    let j = choose|j: int|
                        0 <= j < k - 1 && e == own[j] && !reset_later(own, j, k - 1, ignore_case);
                    lemma_same_variable_symmetric(own[k - 1].0, own[j].0, ignore_case);
                    assert(!reset_later(own, j, k, ignore_case)) by {
                        if reset_later(own, j, k, ignore_case) {
                            let l = choose|l: int| j < l < k && same_variable(#[trigger] own[l].0, own[j].0, ignore_case);
                            assert(l == k - 1);
                        }
                    }
                    assert(0 <= j < k && e == own[j] && !reset_later(own, j, k, ignore_case));
                }
            }
        }
        assert forall|j: int|
            0 <= j < k && !reset_later(own, j, k, ignore_case) implies r.contains(#[trigger] own[j]) by {
            if j == k - 1 {
                assert(r[r.len() - 1] == own[j]);
            } else {
                assert(!reset_later(own, j, k - 1, ignore_case)) by {
                    if reset_later(own, j, k - 1, ignore_case) {
                        let l = choose|l: int| j < l < k - 1 && same_variable(#[trigger] own[l].0, own[j].0, ignore_case);
                        assert(j < l < k && same_variable(own[l].0, own[j].0, ignore_case));
                    }
                }
                assert(prev.contains(own[j]));
                let m = choose|m: int| 0 <= m < prev.len() && prev[m] == own[j];
                assert(!same_variable(own[k - 1].0, own[j].0, ignore_case));
                lemma_same_variable_symmetric(own[k - 1].0, own[j].0, ignore_case);
                assert(pred(prev[m]));
                prev.lemma_filter_contains(pred, m);
                let n = choose|n: int| 0 <= n < f.len() && f[n] == own[j];
                assert(r[n] == own[j]);
            }
        }
        assert forall|i: int|
            0 <= i < global.len() && !denoted_by(global[i].0, own, k, ignore_case) implies r.contains(
            #[trigger] global[i],
        ) by {
            assert(!denoted_by(global[i].0, own, k - 1, ignore_case)) by {
                if denoted_by(global[i].0, own, k - 1, ignore_case) {
                    let j = choose|j: int| 0 <= j < k - 1 && same_variable(global[i].0, #[trigger] own[j].0, ignore_case);
                    assert(0 <= j < k && same_variable(global[i].0, own[j].0, ignore_case));
                }
            }
            assert(prev.contains(global[i]));
            let m = choose|m: int| 0 <= m < prev.len() && prev[m] == global[i];
            assert(!same_variable(global[i].0, own[k - 1].0, ignore_case));
            assert(pred(prev[m]));
            prev.lemma_filter_contains(pred, m);
            let n = choose|n: int| 0 <= n < f.len() && f[n] == global[i];
            assert(r[n] == global[i]);
        }
    }
}

/// The profile of a shell from the configuration.
pub open spec fn custom_profile(s: CustomShell, global: Seq<(Seq<char>, Seq<char>)>, ignore_case: bool) -> ProfileView {
    (
        s.id@,
        s.name@,
        s.program@,
        strings_view(s.args@),
        false,
        overridden_env(global, pairs_view(s.env@), s.env@.len() as int, ignore_case),
    )
}

/// Profiles whose id is not `id`.
pub open spec fn id_differs(id: Seq<char>) -> spec_fn(ProfileView) -> bool {
    |p: ProfileView| p.0 != id
}

/// The shells found on this machine: Bash (with whether it is the bundled
/// one), PowerShell 7, Windows PowerShell and the Command Prompt, each by its
/// program where it was found.
pub struct LocatedShells {
    pub bash: Option<(String, bool)>,
    pub pwsh: Option<String>,
    pub powershell: Option<String>,
    pub cmd: Option<String>,
}

/// The located shells as text.
pub type LocatedView = (Option<(Seq<char>, bool)>, Option<Seq<char>>, Option<Seq<char>>, Option<Seq<char>>);

pub open spec fn located_view(l: LocatedShells) -> LocatedView {
    (
        match l.bash {
            Some((p, b)) => Some((p@, b)),
            None => None,
        },
        match l.pwsh {
            Some(p) => Some(p@),
            None => None,
        },
        match l.powershell {
            Some(p) => Some(p@),
            None => None,
        },
        match l.cmd {
            Some(p) => Some(p@),
            None => None,
        },
    )
}

/// The profile of a shell found on the machine, where it was found: no
/// arguments of its own, and the global environment.
pub open spec fn found_profile(
    id: Seq<char>,
    name: Seq<char>,
    program: Option<Seq<char>>,
    bundled: bool,
    global: Seq<(Seq<char>, Seq<char>)>,
) -> Seq<ProfileView> {
    match program {
        Some(p) => seq![(id, name, p, Seq::<Seq<char>>::empty(), bundled, global)],
        None => Seq::<ProfileView>::empty(),
    }
}

/// The profiles of the shells found on the machine, in this order: Bash,
/// PowerShell 7, Windows PowerShell, Command Prompt.
pub open spec fn found_profiles(l: LocatedView, global: Seq<(Seq<char>, Seq<char>)>) -> Seq<ProfileView> {
    found_profile(
        "bash"@,
        "Bash"@,
        match l.0 {
            Some((p, _)) => Some(p),
            None => None,
        },
        match l.0 {
            Some((_, b)) => b,
            None => false,
        },
        global,
    ) + found_profile("pwsh"@, "PowerShell 7"@, l.1, false, global) + found_profile(
        "powershell"@,
        "Windows PowerShell"@,
        l.2,
        false,
        global,
    ) + found_profile("cmd"@, "Command Prompt"@, l.3, false, global)
}

/// The profiles after the first `k` shells of the configuration: each shell
/// replaces the profile with its id, if any, and comes last.
pub open spec fn profiles_after(
    config: Config,
    located: LocatedView,
    k: int,
    ignore_case: bool,
) -> Seq<ProfileView>
    decreases k,
{
    if k <= 0 {
        found_profiles(located, pairs_view(config.env@))
    } else {
        let s = config.shells@[k - 1];
        profiles_after(config, located, k - 1, ignore_case).filter(id_differs(s.id@)).push(
            custom_profile(s, pairs_view(config.env@), ignore_case),
        )
    }
}

pub open spec fn distinct_ids(ps: Seq<ProfileView>) -> bool {
    forall|i: int, j: int| 0 <= i < j < ps.len() ==> (#[trigger] ps[i]).0 != (#[trigger] ps[j]).0
}

proof fn lemma_filter_keeps_distinct(ps: Seq<ProfileView>, id: Seq<char>)
    requires
        distinct_ids(ps),
    ensures
        distinct_ids(ps.filter(id_differs(id))),
        forall|i: int|
            0 <= i < ps.filter(id_differs(id)).len() ==> (#[trigger] ps.filter(id_differs(id))[i]).0
                != id,
    decreases ps.len(),
{
    reveal_with_fuel(Seq::<_>::filter, 1);
    let pred = id_differs(id);
    if ps.len() > 0 {
        let init = ps.drop_last();
        assert(distinct_ids(init)) by {
            assert forall|i: int, j: int| 0 <= i < j < init.len() implies (#[trigger] init[i]).0
                != (#[trigger] init[j]).0 by {
                assert(init[i] == ps[i] && init[j] == ps[j]);
            }
        }
        lemma_filter_keeps_distinct(init, id);
        let f = init.filter(pred);
        if pred(ps.last()) {
            let g = f.push(ps.last());
            assert forall|k: int| 0 <= k < f.len() implies (#[trigger] f[k]).0 != ps.last().0 by {
                assert(f.contains(f[k]));
                init.lemma_filter_contains_rev(pred, f[k]);
                assert(init.contains(f[k]));
                let m = choose|m: int| 0 <= m < init.len() && init[m] == f[k];
                assert(ps[m] == init[m]);
                assert(ps[m].0 != ps[ps.len() - 1].0);
            }
            assert forall|i: int, j: int| 0 <= i < j < g.len() implies (#[trigger] g[i]).0
                != (#[trigger] g[j]).0 by {
                if j == g.len() - 1 {
                    assert(g[i] == f[i]);
                } else {
                    assert(g[i] == f[i] && g[j] == f[j]);
                }
            }
            assert forall|i: int| 0 <= i < g.len() implies (#[trigger] g[i]).0 != id by {
                if i < f.len() {
                    assert(g[i] == f[i]);
                }
            }
        }
    }
}

/// The shells found on the machine have different ids.
proof fn lemma_found_ids_distinct(l: LocatedView, global: Seq<(Seq<char>, Seq<char>)>)
    ensures
        distinct_ids(found_profiles(l, global)),
{
    reveal_strlit("bash");
    reveal_strlit("pwsh");
    reveal_strlit("powershell");
    reveal_strlit("cmd");
    assert("bash"@.len() == 4 && "pwsh"@.len() == 4 && "powershell"@.len() == 10 && "cmd"@.len()
        == 3);
    assert("bash"@[0] != "pwsh"@[0]);
    let f = found_profiles(l, global);
    assert forall|i: int, j: int| 0 <= i < j < f.len() implies (#[trigger] f[i]).0 != (
    #[trigger] f[j]).0 by {
        let ids = seq!["bash"@, "pwsh"@, "powershell"@, "cmd"@];
        assert(forall|a: int, b: int| 0 <= a < b < 4 ==> ids[a] != ids[b]);
    }
}

/// Each profile has its own id: a shell of the configuration replaces a
/// profile with the same id, among them the shells found on the machine.
pub proof fn lemma_profile_ids_distinct(
    config: Config,
    bash: LocatedView,
    k: int,
    ignore_case: bool,
)
    requires
        0 <= k <= config.shells@.len(),
    ensures
        distinct_ids(profiles_after(config, bash, k, ignore_case)),
    decreases k,
{
    if k == 0 {
        lemma_found_ids_distinct(bash, pairs_view(config.env@));
    } else {
        lemma_profile_ids_distinct(config, bash, k - 1, ignore_case);
        let prev = profiles_after(config, bash, k - 1, ignore_case);
        let s = config.shells@[k - 1];
        lemma_filter_keeps_distinct(prev, s.id@);
        let f = prev.filter(id_differs(s.id@));
        let g = f.push(custom_profile(s, pairs_view(config.env@), ignore_case));
        assert forall|i: int, j: int| 0 <= i < j < g.len() implies (#[trigger] g[i]).0 != (
        #[trigger] g[j]).0 by {
            if j == g.len() - 1 {
                assert(g[i] == f[i]);
            } else {
                assert(g[i] == f[i] && g[j] == f[j]);
            }
        }
    }
}

/// A variable set in an environment ends it, and no other variable of the
/// environment denotes the same one: a profile's own value wins over the
/// global one.
pub proof fn lemma_set_variable_wins(
    env: Seq<(Seq<char>, Seq<char>)>,
    name: Seq<char>,
    value: Seq<char>,
    ignore_case: bool,
)
    ensures
        set_variable(env, name, value, ignore_case).last() == (name, value),
        forall|i: int|
            0 <= i < set_variable(env, name, value, ignore_case).len() - 1 ==> !same_variable(
                (#[trigger] set_variable(env, name, value, ignore_case)[i]).0,
                name,
                ignore_case,
            ),
{
    let pred = |p: (Seq<char>, Seq<char>)| !same_variable(p.0, name, ignore_case);
    let f = env.filter(pred);
    assert forall|i: int| 0 <= i < f.push((name, value)).len() - 1 implies !same_variable(
        (#[trigger] f.push((name, value))[i]).0,
        name,
        ignore_case,
    ) by {
        assert(f.push((name, value))[i] == f[i]);
        env.lemma_filter_pred(pred, i);
    }
}

fn fold_char(c: char) -> (r: char)
    ensures
        r == ascii_fold(c),
{
    if 'A' <= c && c <= 'Z' {
        ((c as u8) + 32) as char
    } else {
        c
    }
}

fn same_variable_exec(a: &str, b: &str, ignore_case: bool) -> (r: bool)
    ensures
        r == same_variable(a@, b@, ignore_case),
{
    if !ignore_case {
        return str_eq(a, b);
    }
    let x = chars_of(a);
    let y = chars_of(b);
    if x.len() != y.len() {
        return false;
    }
    let mut i: usize = 0;
    while i < x.len()
        invariant
            x.len() == y.len(),
            x@ == a@,
            y@ == b@,
            i <= x.len(),
            forall|k: int| 0 <= k < i ==> ascii_fold(#[trigger] x@[k]) == ascii_fold(y@[k]),
        decreases x.len() - i,
    {
        if fold_char(x[i]) != fold_char(y[i]) {
            return false;
        }
        i = i + 1;
    }
    true
}

/// Set a variable in an environment list, replacing any variable that the name denotes.
pub fn set_env_variable(env: &mut Vec<(String, String)>, name: &String, value: &String, ignore_case: bool)
    ensures
        pairs_view(final(env)@) == set_variable(pairs_view(old(env)@), name@, value@, ignore_case),
{
    let ghost pred = |p: (Seq<char>, Seq<char>)| !same_variable(p.0, name@, ignore_case);
    let mut kept: Vec<(String, String)> = Vec::new();
    let mut i: usize = 0;
    while i < env.len()
        invariant
            i <= env.len(),
            pred == (|p: (Seq<char>, Seq<char>)| !same_variable(p.0, name@, ignore_case)),
            pairs_view(kept@) == pairs_view(env@).take(i as int).filter(pred),
        decreases env.len() - i,
    {
        proof {
            reveal_with_fuel(Seq::<_>::filter, 1);
            assert(pairs_view(env@).take(i + 1).drop_last() =~= pairs_view(env@).take(i as int));
        }
        let ghost before = pairs_view(kept@);
        if !same_variable_exec(env[i].0.as_str(), name.as_str(), ignore_case) {
            kept.push((env[i].0.clone(), env[i].1.clone()));
            assert(pairs_view(kept@) =~= before.push(pairs_view(env@)[i as int]));
        }
        i = i + 1;
    }
    assert(pairs_view(env@).take(i as int) =~= pairs_view(env@));
    let ghost before = pairs_view(kept@);
    kept.push((name.clone(), value.clone()));
    assert(pairs_view(kept@) =~= before.push((name@, value@)));
    *env = kept;
}

fn profile_of_shell(shell: &CustomShell, global: &Vec<(String, String)>, ignore_case: bool) -> (p: ShellProfile)
    ensures
        p@ == custom_profile(*shell, pairs_view(global@), ignore_case),
{
    let mut env = clone_pairs(global);
    let mut k: usize = 0;
    while k < shell.env.len()
        invariant
            k <= shell.env.len(),
            pairs_view(env@) == overridden_env(pairs_view(global@), pairs_view(shell.env@), k as int, ignore_case),
        decreases shell.env.len() - k,
    {
        set_env_variable(&mut env, &shell.env[k].0, &shell.env[k].1, ignore_case);
        k = k + 1;
    }
    ShellProfile {
        id: shell.id.clone(),
        name: shell.name.clone(),
        program: shell.program.clone(),
        args: clone_strings(&shell.args),
        bundled: false,
        env,
    }
}

/// Add the profile of a shell found on the machine, where it was found.
fn push_found(
    profiles: &mut Vec<ShellProfile>,
    id: &str,
    name: &str,
    program: Option<String>,
    bundled: bool,
    env: &Vec<(String, String)>,
)
    ensures
        final(profiles)@.map_values(|p: ShellProfile| p@) == old(profiles)@.map_values(
            |p: ShellProfile| p@,
        ) + found_profile(
            id@,
            name@,
            match program {
                Some(p) => Some(p@),
                None => None,
            },
            bundled,
            pairs_view(env@),
        ),
{
    let ghost before = profiles@.map_values(|p: ShellProfile| p@);
    match program {
        Some(program) => {
            let ghost pv = program@;
            let args: Vec<String> = Vec::new();
            assert(strings_view(args@) =~= Seq::<Seq<char>>::empty());
            profiles.push(
                ShellProfile {
                    id: id.to_owned(),
                    name: name.to_owned(),
                    program,
                    args,
                    bundled,
                    env: clone_pairs(env),
                },
            );
            assert(profiles@.map_values(|p: ShellProfile| p@) =~= before + found_profile(
                id@,
                name@,
                Some(pv),
                bundled,
                pairs_view(env@),
            ));
        },
        None => {
            assert(profiles@.map_values(|p: ShellProfile| p@) =~= before + Seq::<ProfileView>::empty());
        },
    }
}

/// The shell profiles: the shells found on the machine (Bash, with whether
/// it is the bundled one, PowerShell 7, Windows PowerShell and the Command
/// Prompt, where each was found), then the profiles of the configuration,
/// each replacing a profile with the same id. A profile's environment is the
/// global one overridden by its own; `ignore_case` tells whether variable
/// names ignore case, as on Windows.
pub fn discover(config: &Config, located: LocatedShells, ignore_case: bool) -> (r: Vec<ShellProfile>)
    ensures
        r@.map_values(|p: ShellProfile| p@) == profiles_after(
            *config,
            located_view(located),
            config.shells@.len() as int,
            ignore_case,
        ),
{
    let ghost b = located_view(located);
    let ghost global = pairs_view(config.env@);
    let mut profiles: Vec<ShellProfile> = Vec::new();
    let (bash_program, bundled) = match located.bash {
        Some((program, bundled)) => (Some(program), bundled),
        None => (None, false),
    };
    push_found(&mut profiles, "bash", "Bash", bash_program, bundled, &config.env);
    push_found(&mut profiles, "pwsh", "PowerShell 7", located.pwsh, false, &config.env);
    push_found(&mut profiles, "powershell", "Windows PowerShell", located.powershell, false, &config.env);
    push_found(&mut profiles, "cmd", "Command Prompt", located.cmd, false, &config.env);
    assert(profiles@.map_values(|p: ShellProfile| p@) =~= profiles_after(*config, b, 0, ignore_case));
    let mut k: usize = 0;
    while k < config.shells.len()
        invariant
            k <= config.shells.len(),
            profiles@.map_values(|p: ShellProfile| p@) == profiles_after(*config, b, k as int, ignore_case),
        decreases config.shells.len() - k,
    {
        let shell = &config.shells[k];
        let ghost pred = id_differs(shell.id@);
        let mut kept: Vec<ShellProfile> = Vec::new();
        let mut i: usize = 0;
        let ghost all = profiles@.map_values(|p: ShellProfile| p@);
        while i < profiles.len()
            invariant
                i <= profiles.len(),
                all == profiles@.map_values(|p: ShellProfile| p@),
                pred == id_differs(shell.id@),
                kept@.map_values(|p: ShellProfile| p@) == all.take(i as int).filter(pred),
            decreases profiles.len() - i,
        {
            proof {
                reveal_with_fuel(Seq::<_>::filter, 1);
                assert(all.take(i + 1).drop_last() =~= all.take(i as int));
            }
            let ghost before = kept@.map_values(|p: ShellProfile| p@);
            let id = chars_of(profiles[i].id.as_str());
            let sid = chars_of(shell.id.as_str());
            if !chars_eq(&id, &sid) {
                let p = &profiles[i];
                let copy = ShellProfile {
                    id: p.id.clone(),
                    name: p.name.clone(),
                    program: p.program.clone(),
                    args: clone_strings(&p.args),
                    bundled: p.bundled,
                    env: clone_pairs(&p.env),
                };
                kept.push(copy);
                assert(kept@.map_values(|p: ShellProfile| p@) =~= before.push(all[i as int]));
            }
            i = i + 1;
        }
        assert(all.take(i as int) =~= all);
        let ghost before = kept@.map_values(|p: ShellProfile| p@);
        let added = profile_of_shell(shell, &config.env, ignore_case);
        kept.push(added);
        assert(kept@.map_values(|p: ShellProfile| p@) =~= before.push(
            custom_profile(config.shells@[k as int], pairs_view(config.env@), ignore_case),
        ));
        profiles = kept;
        k = k + 1;
    }
    profiles
}

/// The error of a profile whose environment holds an invalid variable.
#[derive(Clone, Copy, Debug, PartialEq, Eq)]
pub enum ShellError {
    InvalidEnvironment,
}

/// `path` with each backslash turned into a slash, as Bash expects.
pub open spec fn forward_slashes(path: Seq<char>) -> Seq<char> {
    path.map_values(|c: char| if c == '\\' { '/' } else { c })
}

/// The arguments that start the integrated Bash with its integration script.
pub open spec fn integration_args(rcfile: Seq<char>) -> Seq<Seq<char>> {
    seq!["--noprofile"@, "--rcfile"@, forward_slashes(rcfile), "-i"@]
}

pub open spec fn profile_env_valid(env: Seq<(String, String)>) -> bool {
    forall|i: int| 0 <= i < env.len() ==> valid_env_entry((#[trigger] env[i]).0@, env[i].1@)
}

/// The variables that the terminal sets on every command before the
/// profile's own; the integrated Bash on Windows also gets the two that
/// Git for Windows' Bash needs.
pub open spec fn terminal_env(integration: bool, windows: bool) -> Seq<(Seq<char>, Seq<char>)> {
    (if integration && windows {
        seq![("CHERE_INVOKING"@, "1"@), ("MSYSTEM"@, "MINGW64"@)]
    } else {
        Seq::<(Seq<char>, Seq<char>)>::empty()
    }) + seq![
        ("TERM"@, "xterm-256color"@),
        ("COLORTERM"@, "truecolor"@),
        ("TERM_PROGRAM"@, "winshell"@),
        ("TERM_PROGRAM_VERSION"@, VERSION@),
    ]
}

/// Whether setting the variable `b` can change the variable `a`: they are
/// the same but for ASCII case, or one name has a character beyond ASCII,
/// where which names denote the same variable on Windows is not stated.
pub open spec fn may_denote(a: Seq<char>, b: Seq<char>) -> bool {
    !ascii_text(a) || !ascii_text(b) || same_variable(a, b, true)
}

/// The variable `name` has the value `own`, unless a profile variable at a
/// position in `from..to`, set after it and able to denote it, gave it that
/// variable's value.
pub open spec fn value_or_later(
    value: Option<Seq<char>>,
    name: Seq<char>,
    own: Seq<char>,
    env: Seq<(Seq<char>, Seq<char>)>,
    from: int,
    to: int,
) -> bool {
    value == Some(own) || exists|j: int|
        from <= j < to && may_denote(name, env[j].0) && value == Some(#[trigger] env[j].1)
}

/// The terminal's variable names are ASCII and denote different variables.
proof fn lemma_terminal_names(integration: bool, windows: bool)
    ensures
        forall|i: int|
            0 <= i < terminal_env(integration, windows).len() ==> ascii_text(
                (#[trigger] terminal_env(integration, windows)[i]).0,
            ),
        forall|i: int, j: int|
            0 <= i < terminal_env(integration, windows).len() && 0 <= j < terminal_env(
                integration,
                windows,
            ).len() && i != j ==> !same_variable(
                (#[trigger] terminal_env(integration, windows)[i]).0,
                (#[trigger] terminal_env(integration, windows)[j]).0,
                true,
            ),
{
    reveal_strlit("CHERE_INVOKING");
    reveal_strlit("MSYSTEM");
    reveal_strlit("TERM");
    reveal_strlit("COLORTERM");
    reveal_strlit("TERM_PROGRAM");
    reveal_strlit("TERM_PROGRAM_VERSION");
    let names = seq!["CHERE_INVOKING"@, "MSYSTEM"@, "TERM"@, "COLORTERM"@, "TERM_PROGRAM"@, "TERM_PROGRAM_VERSION"@];
    assert("CHERE_INVOKING"@.len() == 14 && "MSYSTEM"@.len() == 7 && "TERM"@.len() == 4
        && "COLORTERM"@.len() == 9 && "TERM_PROGRAM"@.len() == 12 && "TERM_PROGRAM_VERSION"@.len()
        == 20);
    assert(ascii_text("CHERE_INVOKING"@));
    assert(ascii_text("MSYSTEM"@));
    assert(ascii_text("TERM"@));
    assert(ascii_text("COLORTERM"@));
    assert(ascii_text("TERM_PROGRAM"@));
    assert(ascii_text("TERM_PROGRAM_VERSION"@));
    let t = terminal_env(integration, windows);
    if integration && windows {
        assert(t.len() == 6);
        assert(t[0].0 == names[0] && t[1].0 == names[1] && t[2].0 == names[2] && t[3].0 == names[3]
            && t[4].0 == names[4] && t[5].0 == names[5]);
    } else {
        assert(t.len() == 4);
        assert(t[0].0 == names[2] && t[1].0 == names[3] && t[2].0 == names[4] && t[3].0 == names[5]);
    }
}

impl ShellProfile {
    /// The integrated Bash, started without arguments of its own, loads the
    /// integration script; other profiles run with their arguments as given.
    pub open spec fn uses_integration_spec(self) -> bool {
        self.id@ == "bash"@ && self.args@.len() == 0
    }

    pub fn uses_integration(&self) -> (r: bool)
        ensures
            r == self.uses_integration_spec(),
    {
        str_eq(self.id.as_str(), "bash") && self.args.len() == 0
    }

    /// The command that starts this profile in `cwd`. `rcfile` is the path of
    /// the installed integration script, used where the profile loads it;
    /// `windows` adds the variables that Git for Windows' Bash needs. The
    /// terminal's variables are set, then the profile's own, which must be
    /// valid: a profile variable takes precedence over the terminal's, and
    /// over an earlier profile variable that denotes the same one.
    pub fn command(&self, cwd: &str, rcfile: &str, windows: bool) -> (r: Result<CommandBuilder, ShellError>)
        ensures
            match r {
                Ok(c) => {
                    &&& profile_env_valid(self.env@)
                    &&& command_args(c) == seq![self.program@] + (if self.uses_integration_spec() {
                        integration_args(rcfile@)
                    } else {
                        strings_view(self.args@)
                    })
                    &&& command_cwd(c) == Some(cwd@)
                    &&& forall|i: int|
                        0 <= i < terminal_env(self.uses_integration_spec(), windows).len()
                            ==> value_or_later(
                            command_env_value(
                                c,
                                (#[trigger] terminal_env(self.uses_integration_spec(), windows)[i]).0,
                            ),
                            terminal_env(self.uses_integration_spec(), windows)[i].0,
                            terminal_env(self.uses_integration_spec(), windows)[i].1,
                            pairs_view(self.env@),
                            0,
                            self.env@.len() as int,
                        )
                    &&& forall|i: int|
                        0 <= i < self.env@.len() ==> value_or_later(
                            command_env_value(c, (#[trigger] self.env@[i]).0@),
                            self.env@[i].0@,
                            self.env@[i].1@,
                            pairs_view(self.env@),
                            i + 1,
                            self.env@.len() as int,
                        )
                },
                Err(e) => !profile_env_valid(self.env@) && e == ShellError::InvalidEnvironment,
            },
    {
        let ghost integration = self.uses_integration_spec();
        let ghost defaults = terminal_env(integration, windows);
        proof {
            lemma_terminal_names(integration, windows);
        }
        let mut command = command_new(self.program.as_str());
        let mut set: usize = 0;
        if self.uses_integration() {
            command_arg(&mut command, "--noprofile");
            command_arg(&mut command, "--rcfile");
            let path = chars_of(rcfile);
            let mut slashed: Vec<char> = Vec::new();
            let mut i: usize = 0;
            while i < path.len()
                invariant
                    i <= path.len(),
                    path@ == rcfile@,
                    slashed@ == forward_slashes(rcfile@).take(i as int),
                decreases path.len() - i,
            {
                slashed.push(if path[i] == '\\' { '/' } else { path[i] });
                i = i + 1;
                assert(slashed@ =~= forward_slashes(rcfile@).take(i as int));
            }
            assert(forward_slashes(rcfile@).take(i as int) =~= forward_slashes(rcfile@));
            let s = string_from_chars(&slashed);
            command_arg(&mut command, s.as_str());
            command_arg(&mut command, "-i");
            assert(command_args(command) =~= seq![self.program@] + integration_args(rcfile@));
            if windows {
                self::set_terminal_variable(&mut command, "CHERE_INVOKING", "1", Ghost(defaults), 0);
                self::set_terminal_variable(&mut command, "MSYSTEM", "MINGW64", Ghost(defaults), 1);
                set = 2;
            }
        } else {
            let mut i: usize = 0;
            while i < self.args.len()
                invariant
                    i <= self.args.len(),
                    command_args(command) == seq![self.program@] + strings_view(self.args@).take(i as int),
                    command_cwd(command) is None,
                decreases self.args.len() - i,
            {
                command_arg(&mut command, self.args[i].as_str());
                i = i + 1;
                assert(command_args(command) =~= seq![self.program@] + strings_view(self.args@).take(i as int));
            }
            assert(strings_view(self.args@).take(i as int) =~= strings_view(self.args@));
        }
        command_set_cwd(&mut command, cwd);
        self::set_terminal_variable(&mut command, "TERM", "xterm-256color", Ghost(defaults), set);
        self::set_terminal_variable(&mut command, "COLORTERM", "truecolor", Ghost(defaults), set + 1);
        self::set_terminal_variable(&mut command, "TERM_PROGRAM", "winshell", Ghost(defaults), set + 2);
        self::set_terminal_variable(&mut command, "TERM_PROGRAM_VERSION", VERSION, Ghost(defaults), set + 3);
        let ghost args = command_args(command);
        let ghost penv = pairs_view(self.env@);
        let mut k: usize = 0;
        while k < self.env.len()
            invariant
                k <= self.env.len(),
                penv == pairs_view(self.env@),
                defaults == terminal_env(integration, windows),
                command_args(command) == args,
                command_cwd(command) == Some(cwd@),
                forall|j: int| 0 <= j < k ==> valid_env_entry((#[trigger] self.env@[j]).0@, self.env@[j].1@),
                forall|i: int|
                    0 <= i < defaults.len() ==> value_or_later(
                        command_env_value(command, (#[trigger] defaults[i]).0),
                        defaults[i].0,
                        defaults[i].1,
                        penv,
                        0,
                        k as int,
                    ),
                forall|i: int|
                    0 <= i < k ==> value_or_later(
                        command_env_value(command, (#[trigger] self.env@[i]).0@),
                        self.env@[i].0@,
                        self.env@[i].1@,
                        penv,
                        i + 1,
                        k as int,
                    ),
            decreases self.env.len() - k,
        {
            let (name, value) = (&self.env[k].0, &self.env[k].1);
            if !env_entry_is_valid(name.as_str(), value.as_str()) {
                return Err(ShellError::InvalidEnvironment);
            }
            let ghost before = command;
            command_env(&mut command, name.as_str(), value.as_str());
            assert(penv[k as int] == (name@, value@));
            assert forall|i: int| 0 <= i < defaults.len() implies value_or_later(
                command_env_value(command, (#[trigger] defaults[i]).0),
                defaults[i].0,
                defaults[i].1,
                penv,
                0,
                k + 1,
            ) by {
                let n = defaults[i].0;
                if command_env_value(command, n) == command_env_value(before, n) {
                    if command_env_value(before, n) != Some(defaults[i].1) {
                        let j = choose|j: int|
                            0 <= j < k && may_denote(n, penv[j].0) && command_env_value(before, n)
                                == Some(#[trigger] penv[j].1);
                        assert(0 <= j < k + 1 && may_denote(n, penv[j].0) && command_env_value(
                            command,
                            n,
                        ) == Some(penv[j].1));
                    }
                } else {
                    assert(command_env_value(command, n) == Some(penv[k as int].1));
                    assert(may_denote(n, penv[k as int].0));
                }
            }
            assert forall|i: int| 0 <= i < k + 1 implies value_or_later(
                command_env_value(command, (#[trigger] self.env@[i]).0@),
                self.env@[i].0@,
                self.env@[i].1@,
                penv,
                i + 1,
                k + 1,
            ) by {
                let n = self.env@[i].0@;
                if i == k {
                    assert(command_env_value(command, n) == Some(self.env@[i].1@));
                } else if command_env_value(command, n) == command_env_value(before, n) {
                    if command_env_value(before, n) != Some(self.env@[i].1@) {
                        let j = choose|j: int|
                            i + 1 <= j < k && may_denote(n, penv[j].0) && command_env_value(before, n)
                                == Some(#[trigger] penv[j].1);
                        assert(i + 1 <= j < k + 1 && may_denote(n, penv[j].0) && command_env_value(
                            command,
                            n,
                        ) == Some(penv[j].1));
                    }
                } else {
                    assert(command_env_value(command, n) == Some(penv[k as int].1));
                    assert(may_denote(n, penv[k as int].0));
                }
            }
            k = k + 1;
        }
        Ok(command)
    }
}

/// Set terminal variable `index` of `defaults` on a command: it then has its
/// value, and the terminal variables set before it keep theirs.
fn set_terminal_variable(
    command: &mut CommandBuilder,
    name: &str,
    value: &str,
    Ghost(defaults): Ghost<Seq<(Seq<char>, Seq<char>)>>,
    index: usize,
)
    requires
        index < defaults.len(),
        defaults[index as int] == (name@, value@),
        forall|i: int| 0 <= i < defaults.len() ==> ascii_text((#[trigger] defaults[i]).0),
        forall|i: int, j: int|
            0 <= i < defaults.len() && 0 <= j < defaults.len() && i != j ==> !same_variable(
                (#[trigger] defaults[i]).0,
                (#[trigger] defaults[j]).0,
                true,
            ),
        forall|i: int|
            0 <= i < index ==> command_env_value(*old(command), (#[trigger] defaults[i]).0) == Some(
                defaults[i].1,
            ),
    ensures
        command_args(*final(command)) == command_args(*old(command)),
        command_cwd(*final(command)) == command_cwd(*old(command)),
        forall|i: int|
            0 <= i <= index ==> command_env_value(*final(command), (#[trigger] defaults[i]).0)
                == Some(defaults[i].1),
{
    command_env(command, name, value);
    assert forall|i: int| 0 <= i <= index implies command_env_value(
        *command,
        (#[trigger] defaults[i]).0,
    ) == Some(defaults[i].1) by {
        if i < index {
            assert(!same_variable(defaults[i].0, defaults[index as int].0, true));
            assert(command_env_value(*command, defaults[i].0) == command_env_value(
                *old(command),
                defaults[i].0,
            ));
        }
    }
}

} // verus!
