//! Command suggestions from the shell's history and a list of common commands.
use crate::text::{
    chars_eq, chars_have_control, chars_of, chars_start_with, decode_utf8_lossy, has_control,
    is_control, lossy_text, starts_with, string_from_chars,
};
use vstd::prelude::*;

verus! {

#[derive(Clone, Debug)]
pub struct Suggestion {
    pub command: String,
    pub detail: String,
}

impl Suggestion {
    pub open spec fn view(self) -> (Seq<char>, Seq<char>) {
        (self.command@, self.detail@)
    }
}

/// The common commands suggested after the history: command and description.
pub open spec fn commands_spec() -> Seq<(&'static str, &'static str)> {
    seq![
        ("git status", "Inspect working tree changes"),
        ("git status --short", "Compact working tree status"),
        ("git diff", "Review unstaged changes"),
        ("git diff --staged", "Review staged changes"),
        ("git log --oneline -12", "Recent commits"),
        ("git branch", "List local branches"),
        ("git switch ", "Switch to a branch · Tab to complete"),
        ("git add ", "Stage files · Tab to complete"),
        ("git commit -m ", "Commit staged changes"),
        ("git pull --ff-only", "Pull without a merge commit"),
        ("git push", "Push current branch"),
        ("cargo run", "Build and run the Rust project"),
        ("cargo test", "Run Rust tests"),
        ("cargo clippy", "Check Rust code with Clippy"),
        ("cargo build --release", "Build an optimized executable"),
        ("ls -lah", "List files with sizes and hidden entries"),
        ("cd ", "Change directory · Tab to complete paths"),
        ("pwd", "Print working directory"),
        ("clear", "Clear the terminal viewport"),
        ("npm run dev", "Start the development server"),
        ("npm test", "Run project tests"),
        ("gh pr list", "List pull requests"),
    ]
}

pub fn commands() -> (c: Vec<(&'static str, &'static str)>)
    ensures
        c@ == commands_spec(),
{
    vec![
        ("git status", "Inspect working tree changes"),
        ("git status --short", "Compact working tree status"),
        ("git diff", "Review unstaged changes"),
        ("git diff --staged", "Review staged changes"),
        ("git log --oneline -12", "Recent commits"),
        ("git branch", "List local branches"),
        ("git switch ", "Switch to a branch · Tab to complete"),
        ("git add ", "Stage files · Tab to complete"),
        ("git commit -m ", "Commit staged changes"),
        ("git pull --ff-only", "Pull without a merge commit"),
        ("git push", "Push current branch"),
        ("cargo run", "Build and run the Rust project"),
        ("cargo test", "Run Rust tests"),
        ("cargo clippy", "Check Rust code with Clippy"),
        ("cargo build --release", "Build an optimized executable"),
        ("ls -lah", "List files with sizes and hidden entries"),
        ("cd ", "Change directory · Tab to complete paths"),
        ("pwd", "Print working directory"),
        ("clear", "Clear the terminal viewport"),
        ("npm run dev", "Start the development server"),
        ("npm test", "Run project tests"),
        ("gh pr list", "List pull requests"),
    ]
}

/// The label of suggestions taken from the history.
pub open spec fn history_detail() -> Seq<char> {
    "Bash history"@
}

/// Everything that may be suggested, in order of preference: the history,
/// most recent first, then the common commands.
pub open spec fn candidates(history: Seq<Seq<char>>) -> Seq<(Seq<char>, Seq<char>)> {
    Seq::new(history.len(), |k: int| (history[history.len() - 1 - k], history_detail()))
        + commands_spec().map_values(|p: (&'static str, &'static str)| (p.0@, p.1@))
}

/// Whether `acc` already suggests `command`.
pub open spec fn suggests(acc: Seq<(Seq<char>, Seq<char>)>, command: Seq<char>) -> bool {
    exists|i: int| 0 <= i < acc.len() && (#[trigger] acc[i]).0 == command
}

/// The most suggestions shown at once.
pub open spec fn max_suggestions() -> nat {
    4
}

/// Walk the candidates in order, keeping each command that extends the query,
/// is not the query itself and is not kept yet, until four are kept.
pub open spec fn pick(
    cands: Seq<(Seq<char>, Seq<char>)>,
    query: Seq<char>,
    acc: Seq<(Seq<char>, Seq<char>)>,
) -> Seq<(Seq<char>, Seq<char>)>
    decreases cands.len(),
{
    if acc.len() >= max_suggestions() || cands.len() == 0 {
        acc
    } else {
        let c = cands[0];
        if starts_with(c.0, query) && c.0 != query && !suggests(acc, c.0) {
            pick(cands.drop_first(), query, acc.push(c))
        } else {
            pick(cands.drop_first(), query, acc)
        }
    }
}

/// Whether a query is one that gets suggestions: not empty, not starting with
/// a space (such commands are kept out of the history) and free of control characters.
pub open spec fn suggestible(query: Seq<char>) -> bool {
    query.len() > 0 && query[0] != ' ' && !has_control(query)
}

/// What `matching` returns for a query.
pub open spec fn matching_spec(history: Seq<Seq<char>>, query: Seq<char>) -> Seq<
    (Seq<char>, Seq<char>),
> {
    if suggestible(query) {
        pick(candidates(history), query, seq![])
    } else {
        seq![]
    }
}

/// `line` without its final CR.
pub open spec fn strip_cr(line: Seq<char>) -> Seq<char> {
    if line.len() > 0 && line.last() == '\r' {
        line.drop_last()
    } else {
        line
    }
}

/// The lines of `t` after the partial line `current`, as `str::lines` splits
/// them: at each LF, with the CR of a CR LF ending removed, and no empty line
/// after a final line ending.
pub open spec fn lines_from(t: Seq<char>, current: Seq<char>) -> Seq<Seq<char>>
    decreases t.len(),
{
    if t.len() == 0 {
        if current.len() == 0 {
            seq![]
        } else {
            seq![current]
        }
    } else if t[0] == '\n' {
        seq![strip_cr(current)] + lines_from(t.drop_first(), seq![])
    } else {
        lines_from(t.drop_first(), current.push(t[0]))
    }
}

pub open spec fn lines(t: Seq<char>) -> Seq<Seq<char>> {
    lines_from(t, seq![])
}

/// A history line that may be suggested: not a timestamp comment, not a
/// command typed with a leading space, and free of control characters.
pub open spec fn is_history_entry(line: Seq<char>) -> bool {
    !(line.len() > 0 && (line[0] == '#' || line[0] == ' ')) && !has_control(line)
}

/// The entries among `ls`, in order.
pub open spec fn history_entries(ls: Seq<Seq<char>>) -> Seq<Seq<char>>
    decreases ls.len(),
{
    if ls.len() == 0 {
        ls
    } else if is_history_entry(ls.last()) {
        history_entries(ls.drop_last()).push(ls.last())
    } else {
        history_entries(ls.drop_last())
    }
}

/// The history held in the text of a history file; its first line is dropped
/// where the text starts within the file, since that line may be partial.
pub open spec fn history_of_text(text: Seq<char>, partial_first_line: bool) -> Seq<Seq<char>> {
    let ls = lines(text);
    history_entries(
        if partial_first_line && ls.len() > 0 {
            ls.drop_first()
        } else {
            ls
        },
    )
}

/// Every suggestion extends the query, no suggestion is the query itself,
/// and no command is suggested twice.
pub open spec fn well_formed_suggestions(r: Seq<(Seq<char>, Seq<char>)>, query: Seq<char>) -> bool {
    &&& forall|i: int| 0 <= i < r.len() ==> starts_with((#[trigger] r[i]).0, query) && r[i].0 != query
    &&& forall|i: int, j: int| 0 <= i < j < r.len() ==> (#[trigger] r[i]).0 != (#[trigger] r[j]).0
}

proof fn lemma_pick_well_formed(
    cands: Seq<(Seq<char>, Seq<char>)>,
    query: Seq<char>,
    acc: Seq<(Seq<char>, Seq<char>)>,
)
    requires
        well_formed_suggestions(acc, query),
        acc.len() <= max_suggestions(),
    ensures
        well_formed_suggestions(pick(cands, query, acc), query),
        pick(cands, query, acc).len() <= max_suggestions(),
        acc.len() <= pick(cands, query, acc).len(),
        forall|i: int| 0 <= i < acc.len() ==> pick(cands, query, acc)[i] == acc[i],
    decreases cands.len(),
{
    if acc.len() >= max_suggestions() || cands.len() == 0 {
    } else {
        let c = cands[0];
        if starts_with(c.0, query) && c.0 != query && !suggests(acc, c.0) {
            let next = acc.push(c);
            assert forall|i: int, j: int| 0 <= i < j < next.len() implies (#[trigger] next[i]).0
                != (#[trigger] next[j]).0 by {
                if j == next.len() - 1 {
                    assert(next[i] == acc[i]);
                    if acc[i].0 == c.0 {
                        assert(suggests(acc, c.0));
                    }
                } else {
                    assert(next[i] == acc[i] && next[j] == acc[j]);
                }
            }
            assert forall|i: int| 0 <= i < next.len() implies starts_with((#[trigger] next[i]).0, query)
                && next[i].0 != query by {
                if i < acc.len() {
                    assert(next[i] == acc[i]);
                }
            }
            lemma_pick_well_formed(cands.drop_first(), query, next);
            assert forall|i: int| 0 <= i < acc.len() implies pick(cands, query, acc)[i] == acc[i] by {
                assert(next[i] == acc[i]);
            }
        } else {
            lemma_pick_well_formed(cands.drop_first(), query, acc);
        }
    }
}

/// Suggestions are at most four, each extends the query without being it,
/// and each command is suggested once; a query that starts with a space, is
/// empty or holds control characters gets none.
pub proof fn lemma_matching_well_formed(history: Seq<Seq<char>>, query: Seq<char>)
    ensures
        matching_spec(history, query).len() <= max_suggestions(),
        well_formed_suggestions(matching_spec(history, query), query),
        !suggestible(query) ==> matching_spec(history, query).len() == 0,
{
    if suggestible(query) {
        lemma_pick_well_formed(candidates(history), query, seq![]);
    }
}

/// The most recent history entry that extends the query comes first, ahead
/// of every common command.
pub proof fn lemma_recent_history_first(history: Seq<Seq<char>>, query: Seq<char>)
    requires
        suggestible(query),
        history.len() > 0,
        starts_with(history.last(), query),
        history.last() != query,
    ensures
        matching_spec(history, query).len() > 0,
        matching_spec(history, query)[0] == (history.last(), history_detail()),
{
    let cands = candidates(history);
    assert(cands[0] == (history.last(), history_detail()));
    assert(!suggests(seq![], history.last()));
    let first = seq![(history.last(), history_detail())];
    let empty = Seq::<(Seq<char>, Seq<char>)>::empty();
    assert(!suggests(empty, history.last()));
    assert(empty.push(cands[0]) =~= first);
    assert(pick(cands, query, empty) == pick(cands.drop_first(), query, first));
    lemma_pick_well_formed(cands.drop_first(), query, first);
    assert(pick(cands.drop_first(), query, first)[0] == first[0]);
    assert(matching_spec(history, query) == pick(cands, query, empty));
}

/// The history never holds timestamp comments, commands typed with a leading
/// space, or lines with control characters.
pub proof fn lemma_history_entries_clean(ls: Seq<Seq<char>>)
    ensures
        forall|i: int|
            0 <= i < history_entries(ls).len() ==> is_history_entry(#[trigger] history_entries(ls)[i]),
        history_entries(ls).len() <= ls.len(),
    decreases ls.len(),
{
    if ls.len() > 0 {
        lemma_history_entries_clean(ls.drop_last());
        let h = history_entries(ls.drop_last());
        if is_history_entry(ls.last()) {
            assert forall|i: int| 0 <= i < h.push(ls.last()).len() implies is_history_entry(
                #[trigger] h.push(ls.last())[i],
            ) by {
                if i < h.len() {
                    assert(h.push(ls.last())[i] == h[i]);
                }
            }
        }
    }
}

pub struct Suggestions {
    history: Vec<String>,
}

impl Suggestions {
    /// The commands of the history, oldest first.
    pub closed spec fn history(self) -> Seq<Seq<char>> {
        self.history@.map_values(|s: String| s@)
    }

    pub fn new() -> (s: Self)
        ensures
            s.history() == Seq::<Seq<char>>::empty(),
    {
        let s = Suggestions { history: Vec::new() };
        assert(s.history() =~= Seq::<Seq<char>>::empty());
        s
    }

    /// Replace the history with the one held in the bytes of a history
    /// file, read as UTF-8; `partial_first_line` where the bytes start
    /// inside the file, so that their first line may be cut.
    pub fn set_history_bytes(&mut self, bytes: &[u8], partial_first_line: bool)
        ensures
            final(self).history() == history_of_text(lossy_text(bytes@), partial_first_line),
    {
        let text = decode_utf8_lossy(bytes);
        self.set_history_text(text.as_str(), partial_first_line);
    }

    /// Suggestions over the given history, oldest command first.
    pub fn with_history(history: Vec<String>) -> (s: Self)
        ensures
            s.history() == history@.map_values(|s: String| s@),
    {
        Suggestions { history }
    }

    /// Replace the history with the one held in the text of a history file.
    pub fn set_history_text(&mut self, text: &str, partial_first_line: bool)
        ensures
            final(self).history() == history_of_text(text@, partial_first_line),
    {
        let entries = history_from_text(text, partial_first_line);
        self.history = entries;
    }

    /// The last `limit` commands of the history, oldest first.
    pub fn recent(&self, limit: usize) -> (r: &[String])
        ensures
            r@.map_values(|s: String| s@) == self.history().skip(
                self.history().len() - (if limit < self.history().len() {
                    limit as int
                } else {
                    self.history().len() as int
                }),
            ),
    {
        let len = self.history.len();
        let start = if limit < len {
            len - limit
        } else {
            0
        };
        let r = vstd::slice::slice_subrange(self.history.as_slice(), start, len);
        assert(r@.map_values(|s: String| s@) =~= self.history().skip(start as int));
        r
    }

    /// Up to four suggestions for `query`: history first, most recent first,
    /// then the common commands, each command once, never the query itself.
    pub fn matching(&self, query: &str) -> (r: Vec<Suggestion>)
        ensures
            r@.map_values(|s: Suggestion| s.view()) == matching_spec(self.history(), query@),
    {
        let q = chars_of(query);
        if q.len() == 0 || q[0] == ' ' || chars_have_control(&q) {
            let r: Vec<Suggestion> = Vec::new();
            assert(r@.map_values(|s: Suggestion| s.view()) =~= matching_spec(
                self.history(),
                query@,
            ));
            return r;
        }
        let ghost cands = candidates(self.history());
        let ghost hlen = self.history.len() as int;
        let mut result: Vec<Suggestion> = Vec::new();
        let mut kept: Vec<Vec<char>> = Vec::new();
        let mut k: usize = 0;
        assert(cands.skip(0) =~= cands);
        assert(result@.map_values(|s: Suggestion| s.view()) =~= seq![]);
        while k < self.history.len()
            invariant
                k <= self.history.len(),
                hlen == self.history.len(),
                q@ == query@,
                suggestible(query@),
                cands == candidates(self.history()),
                result.len() < max_suggestions(),
                kept.len() == result.len(),
                forall|i: int| 0 <= i < kept.len() ==> (#[trigger] kept@[i])@ == result@[i].command@,
                pick(cands, q@, seq![]) == pick(
                    cands.skip(k as int),
                    q@,
                    result@.map_values(|s: Suggestion| s.view()),
                ),
            decreases self.history.len() - k,
        {
            let ghost acc = result@.map_values(|s: Suggestion| s.view());
            let ghost rest = cands.skip(k as int);
            let h = &self.history[self.history.len() - 1 - k];
            let command = chars_of(h.as_str());
            assert(rest[0] == (command@, history_detail()));
            assert(rest.drop_first() =~= cands.skip(k + 1));
            let is_new = !contains_chars(&kept, &command);
            proof {
                assert(is_new == !suggests(acc, command@)) by {
                    if suggests(acc, command@) {
                        let i = choose|i: int| 0 <= i < acc.len() && (#[trigger] acc[i]).0 == command@;
                        assert(acc[i] == result@[i].view());
                        assert(kept@[i]@ == command@);
                    }
                    if !is_new {
                        let i = choose|i: int| 0 <= i < kept@.len() && (#[trigger] kept@[i])@ == command@;
                        assert(acc[i] == result@[i].view());
                        assert(acc[i].0 == command@);
                    }
                }
            }
            if chars_start_with(&command, &q) && !chars_eq(&command, &q) && is_new {
                let detail = string_from_chars(&chars_of("Bash history"));
                let s = Suggestion { command: string_from_chars(&command), detail };
                result.push(s);
                kept.push(command);
                assert(result@.map_values(|s: Suggestion| s.view()) =~= acc.push(
                    (command@, history_detail()),
                ));
                if result.len() == 4 {
                    assert(pick(cands.skip(k + 1), q@, result@.map_values(|s: Suggestion| s.view()))
                        == result@.map_values(|s: Suggestion| s.view()));
                    assert(pick(rest, q@, acc) == pick(rest.drop_first(), q@, acc.push(rest[0])));
                    assert(pick(cands, q@, seq![]) == result@.map_values(|s: Suggestion| s.view()));
                    return result;
                }
            }
            k = k + 1;
        }
        let table = commands();
        let mut j: usize = 0;
        while j < table.len()
            invariant
                j <= table.len(),
                hlen == self.history.len(),
                table@ == commands_spec(),
                q@ == query@,
                suggestible(query@),
                cands == candidates(self.history()),
                result.len() < max_suggestions(),
                kept.len() == result.len(),
                forall|i: int| 0 <= i < kept.len() ==> (#[trigger] kept@[i])@ == result@[i].command@,
                pick(cands, q@, seq![]) == pick(
                    cands.skip(hlen + j),
                    q@,
                    result@.map_values(|s: Suggestion| s.view()),
                ),
            decreases table.len() - j,
        {
            let ghost acc = result@.map_values(|s: Suggestion| s.view());
            let ghost rest = cands.skip(hlen + j);
            let command = chars_of(table[j].0);
            assert(rest[0] == (command@, table@[j as int].1@));
            assert(rest.drop_first() =~= cands.skip(hlen + j + 1));
            let is_new = !contains_chars(&kept, &command);
            proof {
                assert(is_new == !suggests(acc, command@)) by {
                    if suggests(acc, command@) {
                        let i = choose|i: int| 0 <= i < acc.len() && (#[trigger] acc[i]).0 == command@;
                        assert(acc[i] == result@[i].view());
                        assert(kept@[i]@ == command@);
                    }
                    if !is_new {
                        let i = choose|i: int| 0 <= i < kept@.len() && (#[trigger] kept@[i])@ == command@;
                        assert(acc[i] == result@[i].view());
                        assert(acc[i].0 == command@);
                    }
                }
            }
            if chars_start_with(&command, &q) && !chars_eq(&command, &q) && is_new {
                let detail = string_from_chars(&chars_of(table[j].1));
                let s = Suggestion { command: string_from_chars(&command), detail };
                result.push(s);
                kept.push(command);
                assert(result@.map_values(|s: Suggestion| s.view()) =~= acc.push(
                    (command@, table@[j as int].1@),
                ));
                if result.len() == 4 {
                    assert(pick(cands.skip(hlen + j + 1), q@, result@.map_values(|s: Suggestion| s.view()))
                        == result@.map_values(|s: Suggestion| s.view()));
                    assert(pick(rest, q@, acc) == pick(rest.drop_first(), q@, acc.push(rest[0])));
                    assert(pick(cands, q@, seq![]) == result@.map_values(|s: Suggestion| s.view()));
                    return result;
                }
            }
            j = j + 1;
        }
        assert(cands.skip(hlen + j) =~= Seq::<(Seq<char>, Seq<char>)>::empty());
        result
    }
}

impl Default for Suggestions {
    fn default() -> (s: Self)
        ensures
            s.history() == Seq::<Seq<char>>::empty(),
    {
        Self::new()
    }
}

/// Whether one of `list` equals `c`.
fn contains_chars(list: &Vec<Vec<char>>, c: &Vec<char>) -> (r: bool)
    ensures
        r == exists|i: int| 0 <= i < list@.len() && (#[trigger] list@[i])@ == c@,
{
    let mut i: usize = 0;
    while i < list.len()
        invariant
            i <= list.len(),
            forall|j: int| 0 <= j < i ==> (#[trigger] list@[j])@ != c@,
        decreases list.len() - i,
    {
        if chars_eq(&list[i], c) {
            return true;
        }
        i = i + 1;
    }
    false
}

/// The lines of `text`, as `str::lines` splits them.
pub(crate) fn split_lines(text: &str) -> (r: Vec<Vec<char>>)
    ensures
        r@.map_values(|l: Vec<char>| l@) == lines(text@),
{
    let t = chars_of(text);
    let mut all: Vec<Vec<char>> = Vec::new();
    let mut current: Vec<char> = Vec::new();
    let mut i: usize = 0;
    assert(t@.skip(0) =~= t@);
    while i < t.len()
        invariant
            i <= t.len(),
            t@ == text@,
            all@.map_values(|l: Vec<char>| l@) + lines_from(t@.skip(i as int), current@) == lines(
                text@,
            ),
        decreases t.len() - i,
    {
        let ghost before = all@.map_values(|l: Vec<char>| l@);
        assert(t@.skip(i as int).drop_first() =~= t@.skip(i + 1));
        let c = t[i];
        if c == '\n' {
            let n = current.len();
            let line = if n > 0 && current[n - 1] == '\r' {
                let mut l = current;
                l.pop();
                l
            } else {
                current
            };
            let ghost lv = line@;
            all.push(line);
            current = Vec::new();
            assert(all@.map_values(|l: Vec<char>| l@) =~= before.push(lv));
        } else {
            current.push(c);
        }
        i = i + 1;
    }
    if current.len() > 0 {
        let ghost before = all@.map_values(|l: Vec<char>| l@);
        let ghost cv = current@;
        all.push(current);
        assert(all@.map_values(|l: Vec<char>| l@) =~= before.push(cv));
    }
    assert(all@.map_values(|l: Vec<char>| l@) =~= lines(text@));
    all
}

/// The history held in the text of a history file, oldest first.
pub fn history_from_text(text: &str, partial_first_line: bool) -> (h: Vec<String>)
    ensures
        h@.map_values(|s: String| s@) == history_of_text(text@, partial_first_line),
{
    let all = split_lines(text);
    assert(all@.map_values(|l: Vec<char>| l@) =~= lines(text@));
    let ghost ls = lines(text@);
    let first: usize = if partial_first_line && all.len() > 0 {
        1
    } else {
        0
    };
    let ghost src = if partial_first_line && ls.len() > 0 {
        ls.drop_first()
    } else {
        ls
    };
    assert(src =~= ls.skip(first as int));
    let mut out: Vec<String> = Vec::new();
    let mut k: usize = first;
    while k < all.len()
        invariant
            first <= k <= all.len(),
            ls == all@.map_values(|l: Vec<char>| l@),
            src == ls.skip(first as int),
            out@.map_values(|s: String| s@) == history_entries(src.take(k - first)),
        decreases all.len() - k,
    {
        let line = &all[k];
        assert(src.take(k - first + 1).drop_last() =~= src.take(k - first));
        assert(src.take(k - first + 1).last() == line@);
        let skip = line.len() > 0 && (line[0] == '#' || line[0] == ' ');
        if !skip && !chars_have_control(line) {
            let ghost before = out@.map_values(|s: String| s@);
            out.push(string_from_chars(line));
            assert(out@.map_values(|s: String| s@) =~= before.push(line@));
        }
        k = k + 1;
    }
    assert(src.take(k - first) =~= src);
    out
}

} // verus!
