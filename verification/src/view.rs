//! Decisions of a terminal tab: keys, mouse reports, wheel, suggestions and search.
use crate::input::{decimal, encode_key, esc, key_encoding};
use crate::terminal::{cell_text, cells_text, RowCell};
use crate::text::{chars_equal, chars_of, chars_start_with, has_control, is_control, starts_with, utf8_bytes};
use vstd::prelude::*;
use vstd::utf8::{encode_scalar, encode_utf8};

verus! {

broadcast use vstd::string::group_string_axioms;

/// The bytes that accepting a suggestion types: the rest of its command after
/// the query. Nothing is typed unless the live input line still reads the
/// query that the suggestion was made for, and the command extends it; a
/// stale suggestion must never replace a changed line.
pub open spec fn accepted_suffix_spec(
    live_query: Option<Seq<char>>,
    hint_query: Seq<char>,
    command: Option<Seq<char>>,
) -> Option<Seq<u8>> {
    match (live_query, command) {
        (Some(q), Some(c)) => if q.len() > 0 && q == hint_query && starts_with(c, q) {
            Some(encode_utf8(c.skip(q.len() as int)))
        } else {
            None
        },
        _ => None,
    }
}

pub fn accepted_suffix(live_query: Option<&str>, hint_query: &str, command: Option<&str>) -> (r:
    Option<Vec<u8>>)
    ensures
        match r {
            Some(b) => accepted_suffix_spec(
                match live_query {
                    Some(q) => Some(q@),
                    None => None,
                },
                hint_query@,
                match command {
                    Some(c) => Some(c@),
                    None => None,
                },
            ) == Some(b@),
            None => accepted_suffix_spec(
                match live_query {
                    Some(q) => Some(q@),
                    None => None,
                },
                hint_query@,
                match command {
                    Some(c) => Some(c@),
                    None => None,
                },
            ) is None,
        },
{
    match (live_query, command) {
        (Some(q), Some(c)) => {
            let query = chars_of(q);
            let cmd = chars_of(c);
            if query.len() > 0 && crate::text::str_eq(q, hint_query) && chars_start_with(
                &cmd,
                &query,
            ) {
                let mut rest: Vec<char> = Vec::new();
                let mut i = query.len();
                while i < cmd.len()
                    invariant
                        query.len() <= i <= cmd.len(),
                        rest@ == cmd@.subrange(query.len() as int, i as int),
                    decreases cmd.len() - i,
                {
                    rest.push(cmd[i]);
                    i = i + 1;
                }
                assert(rest@ =~= c@.skip(q@.len() as int));
                Some(utf8_bytes(&rest))
            } else {
                None
            }
        },
        _ => None,
    }
}

/// The modifier keys held with a key.
#[derive(Clone, Copy, Debug)]
pub struct Modifiers {
    pub control: bool,
    pub alt: bool,
    pub shift: bool,
}

/// What a terminal tab does with a key.
#[derive(Clone, Debug)]
pub enum KeyAction {
    /// The key is not the tab's: it goes on to the platform text input or the window.
    Pass,
    /// Close the search bar.
    CloseSearch,
    /// Select the next search match.
    FindNext,
    /// Remove the last character of the search and search again.
    SearchBackspace,
    /// Empty the search and search again.
    ClearSearch,
    /// Type the rest of the first suggestion.
    AcceptSuggestion,
    /// Scroll the view by this many lines, up for positive.
    Scroll(i32),
    /// Send these bytes to the shell; `leaves_prompt` where the key ends the
    /// input line (Enter, Ctrl+C, Ctrl+D), which also drops the suggestions.
    Send { bytes: Vec<u8>, leaves_prompt: bool },
}

/// A key as the tab handles it: which action, its scroll amount, its bytes
/// and whether it leaves the prompt.
pub type KeyActionView = (int, int, Seq<u8>, bool);

pub open spec fn key_action_view(a: KeyAction) -> KeyActionView {
    match a {
        KeyAction::Pass => (0, 0, Seq::empty(), false),
        KeyAction::CloseSearch => (1, 0, Seq::empty(), false),
        KeyAction::FindNext => (2, 0, Seq::empty(), false),
        KeyAction::SearchBackspace => (3, 0, Seq::empty(), false),
        KeyAction::ClearSearch => (4, 0, Seq::empty(), false),
        KeyAction::AcceptSuggestion => (5, 0, Seq::empty(), false),
        KeyAction::Scroll(n) => (6, n as int, Seq::empty(), false),
        KeyAction::Send { bytes, leaves_prompt } => (7, 0, bytes@, leaves_prompt),
    }
}

/// The tab's handling of a key: the search bar takes Escape, Enter, Backspace
/// and Ctrl+A while it is open; Alt+Right accepts a suggestion; Shift+PageUp
/// and Shift+PageDown scroll by a page less one line; AltGr text goes to the
/// platform input; other keys are sent as `encode_key` encodes them.
pub open spec fn key_action_spec(
    key: Seq<char>,
    m: Modifiers,
    has_text: bool,
    searching: bool,
    has_suggestions: bool,
    rows: u16,
    application_cursor: bool,
) -> KeyActionView {
    if searching {
        if key == "escape"@ {
            (1, 0, Seq::empty(), false)
        } else if key == "enter"@ {
            (2, 0, Seq::empty(), false)
        } else if key == "backspace"@ {
            (3, 0, Seq::empty(), false)
        } else if key == "a"@ && m.control {
            (4, 0, Seq::empty(), false)
        } else {
            (0, 0, Seq::empty(), false)
        }
    } else if key == "right"@ && m.alt && has_suggestions {
        (5, 0, Seq::empty(), false)
    } else if m.shift && !m.control && (key == "pageup"@ || key == "pagedown"@) {
        (
            6,
            if key == "pageup"@ {
                rows - 1
            } else {
                1 - rows
            },
            Seq::empty(),
            false,
        )
    } else if m.control && m.alt && has_text {
        (0, 0, Seq::empty(), false)
    } else {
        match key_encoding(key, m.control, m.alt, m.shift, application_cursor) {
            Some(bytes) => (
                7,
                0,
                bytes,
                key == "enter"@ || (m.control && (key == "c"@ || key == "d"@)),
            ),
            None => (0, 0, Seq::empty(), false),
        }
    }
}

/// Decide what a key does in a terminal tab. `has_text` tells whether the key
/// produces text, `rows` is the height of the grid.
pub fn key_action(
    key: &str,
    m: Modifiers,
    has_text: bool,
    searching: bool,
    has_suggestions: bool,
    rows: u16,
    application_cursor: bool,
) -> (a: KeyAction)
    ensures
        key_action_view(a) == key_action_spec(
            key@,
            m,
            has_text,
            searching,
            has_suggestions,
            rows,
            application_cursor,
        ),
{
    let k = chars_of(key);
    if searching {
        if chars_equal(&k, "escape") {
            return KeyAction::CloseSearch;
        } else if chars_equal(&k, "enter") {
            return KeyAction::FindNext;
        } else if chars_equal(&k, "backspace") {
            return KeyAction::SearchBackspace;
        } else if chars_equal(&k, "a") && m.control {
            return KeyAction::ClearSearch;
        } else {
            return KeyAction::Pass;
        }
    }
    if chars_equal(&k, "right") && m.alt && has_suggestions {
        return KeyAction::AcceptSuggestion;
    }
    let up = chars_equal(&k, "pageup");
    if m.shift && !m.control && (up || chars_equal(&k, "pagedown")) {
        return KeyAction::Scroll(
            if up {
                rows as i32 - 1
            } else {
                1 - rows as i32
            },
        );
    }
    if m.control && m.alt && has_text {
        return KeyAction::Pass;
    }
    match encode_key(key, m.control, m.alt, m.shift, application_cursor) {
        Some(bytes) => {
            let leaves = chars_equal(&k, "enter") || (m.control && (chars_equal(&k, "c")
                || chars_equal(&k, "d")));
            KeyAction::Send { bytes, leaves_prompt: leaves }
        },
        None => KeyAction::Pass,
    }
}

fn push_number(out: &mut Vec<u8>, n: u64)
    ensures
        final(out)@ == old(out)@ + decimal(n as nat),
    decreases n,
{
    if n >= 10 {
        push_number(out, n / 10);
    }
    let ghost mid = out@;
    out.push(48 + (n % 10) as u8);
    proof {
        if n >= 10 {
            assert(final(out)@ =~= old(out)@ + decimal(n as nat));
        } else {
            assert(final(out)@ =~= old(out)@ + decimal(n as nat));
        }
    }
}

/// How the application reads the mouse: whether it asked for reports at all,
/// and whether in SGR form.
#[derive(Clone, Copy, Debug)]
pub struct MouseMode {
    pub reporting: bool,
    pub sgr: bool,
}

/// The report of a mouse event to the application: `None` where the event is
/// not reported (no reporting requested, or Shift held, which selects text
/// instead), else the bytes sent, if any. The position is clamped into the
/// grid and counted from 1; the button code adds 8 for Alt and 16 for
/// Control. SGR reports end in `M`, or `m` for a release; the legacy form
/// encodes release as button 3 and cannot report beyond column or row 223.
pub open spec fn mouse_report_spec(
    row: nat,
    col: nat,
    button: nat,
    release: bool,
    m: Modifiers,
    mode: MouseMode,
    rows: nat,
    cols: nat,
) -> Option<Option<Seq<u8>>> {
    if m.shift || !mode.reporting {
        None
    } else {
        let code = button + 8 * crate::input::bit(m.alt) + 16 * crate::input::bit(m.control);
        let r = (if row < rows {
            row
        } else {
            (rows - 1) as nat
        }) + 1;
        let c = (if col < cols {
            col
        } else {
            (cols - 1) as nat
        }) + 1;
        if mode.sgr {
            Some(
                Some(
                    seq![esc(), '[' as u8, '<' as u8] + decimal(code) + seq![';' as u8] + decimal(
                        c as nat,
                    ) + seq![';' as u8] + decimal(r as nat) + seq![
                        if release {
                            'm' as u8
                        } else {
                            'M' as u8
                        },
                    ],
                ),
            )
        } else if r < 224 && c < 224 {
            Some(
                Some(
                    seq![
                        esc(),
                        '[' as u8,
                        'M' as u8,
                        (32 + if release {
                            3
                        } else {
                            code
                        }) as u8,
                        (32 + c) as u8,
                        (32 + r) as u8,
                    ],
                ),
            )
        } else {
            Some(None)
        }
    }
}

/// A reported event's button code fits a byte: the button plus 8 for Alt and
/// 16 for Control, and in the legacy form, where the position can be sent,
/// that code plus 32.
pub open spec fn mouse_report_fits(
    row: nat,
    col: nat,
    button: nat,
    release: bool,
    m: Modifiers,
    mode: MouseMode,
    rows: nat,
    cols: nat,
) -> bool {
    let code = button + 8 * crate::input::bit(m.alt) + 16 * crate::input::bit(m.control);
    let r = (if row < rows {
        row
    } else {
        (rows - 1) as nat
    }) + 1;
    let c = (if col < cols {
        col
    } else {
        (cols - 1) as nat
    }) + 1;
    m.shift || !mode.reporting || (code <= 255 && (mode.sgr || release || r >= 224 || c >= 224
        || code <= 223))
}

pub fn mouse_report(
    row: usize,
    col: usize,
    button: u8,
    release: bool,
    m: Modifiers,
    mode: MouseMode,
    rows: u16,
    cols: u16,
) -> (r: Option<Option<Vec<u8>>>)
    requires
        rows >= 1,
        cols >= 1,
        mouse_report_fits(row as nat, col as nat, button as nat, release, m, mode, rows as nat, cols as nat),
    ensures
        match r {
            None => mouse_report_spec(
                row as nat,
                col as nat,
                button as nat,
                release,
                m,
                mode,
                rows as nat,
                cols as nat,
            ) is None,
            Some(None) => mouse_report_spec(
                row as nat,
                col as nat,
                button as nat,
                release,
                m,
                mode,
                rows as nat,
                cols as nat,
            ) == Some(None::<Seq<u8>>),
            Some(Some(b)) => mouse_report_spec(
                row as nat,
                col as nat,
                button as nat,
                release,
                m,
                mode,
                rows as nat,
                cols as nat,
            ) == Some(Some(b@)),
        },
{
    if m.shift || !mode.reporting {
        return None;
    }
    let wide: u32 = button as u32 + 8 * (if m.alt {
        1u32
    } else {
        0u32
    }) + 16 * (if m.control {
        1u32
    } else {
        0u32
    });
    assert(wide == button + 8 * crate::input::bit(m.alt) + 16 * crate::input::bit(m.control));
    assert(wide <= 255);
    let code: u8 = wide as u8;
    let r: usize = (if row < rows as usize {
        row
    } else {
        rows as usize - 1
    }) + 1;
    let c: usize = (if col < cols as usize {
        col
    } else {
        cols as usize - 1
    }) + 1;
    if mode.sgr {
        let mut out: Vec<u8> = vec![27u8, '[' as u8, '<' as u8];
        push_number(&mut out, code as u64);
        out.push(';' as u8);
        push_number(&mut out, c as u64);
        out.push(';' as u8);
        push_number(&mut out, r as u64);
        out.push(
            if release {
                'm' as u8
            } else {
                'M' as u8
            },
        );
        proof {
            let expected = mouse_report_spec(
                row as nat,
                col as nat,
                button as nat,
                release,
                m,
                mode,
                rows as nat,
                cols as nat,
            )->0->0;
            assert(out@ =~= expected);
        }
        Some(Some(out))
    } else if r < 224 && c < 224 {
        assert(release || code <= 223);
        let out: Vec<u8> = vec![
            27u8,
            '[' as u8,
            'M' as u8,
            32 + if release {
                3
            } else {
                code
            },
            32 + c as u8,
            32 + r as u8,
        ];
        Some(Some(out))
    } else {
        Some(None)
    }
}

/// What the wheel does with `lines` whole lines of scrolling (up for positive).
#[derive(Clone, Debug)]
pub enum WheelAction {
    /// Report this wheel button (64 up, 65 down) this many times.
    Report { button: u8, count: u32 },
    /// Send these bytes: cursor keys for a full-screen program.
    Send(Vec<u8>),
    /// Scroll the view.
    Scroll(i32),
}

pub open spec fn wheel_steps(lines: int) -> nat {
    let a = if lines < 0 {
        -lines
    } else {
        lines
    };
    (if a < 30 {
        a
    } else {
        30
    }) as nat
}

pub open spec fn repeat_bytes(b: Seq<u8>, n: nat) -> Seq<u8>
    decreases n,
{
    if n == 0 {
        Seq::empty()
    } else {
        repeat_bytes(b, (n - 1) as nat) + b
    }
}

/// Wheel scrolling: reported to an application that reads the mouse, sent
/// as Up and Down keys to a full-screen program, at most 30 at once; Shift,
/// and a program that does neither, scroll the view.
pub open spec fn wheel_spec(
    lines: int,
    reporting: bool,
    alternate_screen: bool,
    shift: bool,
    application_cursor: bool,
) -> (int, int, Seq<u8>) {
    if reporting && !shift {
        (
            0,
            if lines > 0 {
                64
            } else {
                65
            },
            Seq::empty(),
        )
    } else if alternate_screen && !shift {
        (
            1,
            0,
            repeat_bytes(
                key_encoding(
                    if lines > 0 {
                        "up"@
                    } else {
                        "down"@
                    },
                    false,
                    false,
                    false,
                    application_cursor,
                )->0,
                wheel_steps(lines),
            ),
        )
    } else {
        (2, lines, Seq::empty())
    }
}

pub fn wheel_action(
    lines: i32,
    reporting: bool,
    alternate_screen: bool,
    shift: bool,
    application_cursor: bool,
) -> (w: WheelAction)
    requires
        lines != 0,
        reporting && !shift ==> lines > i32::MIN,
    ensures
        match w {
            WheelAction::Report { button, count } => wheel_spec(
                lines as int,
                reporting,
                alternate_screen,
                shift,
                application_cursor,
            ) == (0int, button as int, Seq::<u8>::empty()) && count == wheel_steps(lines as int),
            WheelAction::Send(b) => wheel_spec(
                lines as int,
                reporting,
                alternate_screen,
                shift,
                application_cursor,
            ) == (1int, 0int, b@),
            WheelAction::Scroll(n) => wheel_spec(
                lines as int,
                reporting,
                alternate_screen,
                shift,
                application_cursor,
            ) == (2int, n as int, Seq::<u8>::empty()),
        },
{
    let magnitude: i64 = if lines < 0 {
        -(lines as i64)
    } else {
        lines as i64
    };
    let steps: u32 = if magnitude < 30 {
        magnitude as u32
    } else {
        30
    };
    if reporting && !shift {
        WheelAction::Report {
            button: if lines > 0 {
                64
            } else {
                65
            },
            count: steps,
        }
    } else if alternate_screen && !shift {
        proof {
            reveal_strlit("up");
            reveal_strlit("down");
        }
        let arrow = match encode_key(
            if lines > 0 {
                "up"
            } else {
                "down"
            },
            false,
            false,
            false,
            application_cursor,
        ) {
            Some(b) => b,
            None => {
                assert(false);
                Vec::new()
            },
        };
        let mut out: Vec<u8> = Vec::new();
        let mut i: u32 = 0;
        while i < steps
            invariant
                i <= steps,
                out@ == repeat_bytes(arrow@, i as nat),
            decreases steps - i,
        {
            let mut j: usize = 0;
            let ghost before = out@;
            while j < arrow.len()
                invariant
                    j <= arrow.len(),
                    out@ == before + arrow@.take(j as int),
                decreases arrow.len() - j,
            {
                out.push(arrow[j]);
                j = j + 1;
                assert(out@ =~= before + arrow@.take(j as int));
            }
            assert(arrow@.take(j as int) =~= arrow@);
            i = i + 1;
        }
        WheelAction::Send(out)
    } else {
        WheelAction::Scroll(lines)
    }
}

/// What a terminal reports of a focus change where the application asked for it.
pub fn focus_report(focused: bool, requested: bool) -> (r: Option<Vec<u8>>)
    ensures
        match r {
            Some(b) => requested && b@ == seq![
                esc(),
                '[' as u8,
                if focused {
                    'I' as u8
                } else {
                    'O' as u8
                },
            ],
            None => !requested,
        },
{
    if requested {
        Some(
            vec![
                27u8,
                '[' as u8,
                if focused {
                    'I' as u8
                } else {
                    'O' as u8
                },
            ],
        )
    } else {
        None
    }
}

/// The characters of a row as the search reads them, each with its column:
/// wide-character spacers are skipped, zero-width characters belong to the
/// column of their cell.
pub open spec fn row_chars(cells: Seq<RowCell>, n: int) -> Seq<(char, int)>
    decreases n,
{
    if n <= 0 {
        Seq::empty()
    } else {
        let cell = cells[n - 1];
        row_chars(cells, n - 1) + cell_text(cell).map_values(|c: char| (c, n - 1))
    }
}

/// The starts of the non-overlapping occurrences of `q` in `t` from `from`
/// on, found from left to right.
pub open spec fn occurrences(t: Seq<char>, q: Seq<char>, from: int) -> Seq<int>
    decreases t.len() - from,
{
    if q.len() == 0 || from < 0 || from + q.len() > t.len() {
        Seq::empty()
    } else if t.subrange(from, from + q.len()) == q {
        seq![from] + occurrences(t, q, from + q.len())
    } else {
        occurrences(t, q, from + 1)
    }
}

/// The first and last column of each match of `q` in a row.
pub open spec fn row_matches_spec(cells: Seq<RowCell>, q: Seq<char>) -> Seq<(int, int)> {
    let rc = row_chars(cells, cells.len() as int);
    let text = rc.map_values(|p: (char, int)| p.0);
    occurrences(text, q, 0).map_values(|s: int| (rc[s].1, rc[s + q.len() - 1].1))
}

/// The first and last column of each match of `query` in a row of cells.
pub fn row_matches(cells: &Vec<RowCell>, query: &str) -> (r: Vec<(usize, usize)>)
    ensures
        r@.map_values(|p: (usize, usize)| (p.0 as int, p.1 as int)) == row_matches_spec(
            cells@,
            query@,
        ),
{
    let q = chars_of(query);
    let mut text: Vec<char> = Vec::new();
    let mut columns: Vec<usize> = Vec::new();
    let mut col: usize = 0;
    while col < cells.len()
        invariant
            col <= cells.len(),
            text.len() == columns.len(),
            text@ == row_chars(cells@, col as int).map_values(|p: (char, int)| p.0),
            columns@.map_values(|c: usize| c as int) == row_chars(cells@, col as int).map_values(
                |p: (char, int)| p.1,
            ),
        decreases cells.len() - col,
    {
        let cell = &cells[col];
        let mut own: Vec<char> = Vec::new();
        if !cell.wide_spacer {
            own.push(cell.c);
        }
        let mut z: usize = 0;
        let ghost head = own@;
        while z < cell.zero_width.len()
            invariant
                z <= cell.zero_width.len(),
                own@ == head + cell.zero_width@.take(z as int),
            decreases cell.zero_width.len() - z,
        {
            own.push(cell.zero_width[z]);
            z = z + 1;
            assert(own@ =~= head + cell.zero_width@.take(z as int));
        }
        assert(cell.zero_width@.take(z as int) =~= cell.zero_width@);
        assert(own@ =~= cell_text(cells@[col as int]));
        let ghost t0 = text@;
        let ghost c0 = columns@.map_values(|c: usize| c as int);
        let mut j: usize = 0;
        while j < own.len()
            invariant
                j <= own.len(),
                text.len() == columns.len(),
                text@ == t0 + own@.take(j as int),
                columns@.map_values(|c: usize| c as int) == c0 + Seq::new(j as nat, |_i: int| col as int),
            decreases own.len() - j,
        {
            let ghost cb = columns@;
            text.push(own[j]);
            columns.push(col);
            assert(columns@ == cb.push(col));
            assert(columns@.map_values(|c: usize| c as int) =~= cb.map_values(|c: usize| c as int).push(col as int));
            j = j + 1;
            assert(text@ =~= t0 + own@.take(j as int));
            assert(columns@.map_values(|c: usize| c as int) =~= c0 + Seq::new(j as nat, |_i: int| col as int));
        }
        proof {
            let rc_next = row_chars(cells@, col + 1);
            assert(own@.take(j as int) =~= own@);
            assert(rc_next.map_values(|p: (char, int)| p.0) =~= t0 + own@);
            assert(rc_next.map_values(|p: (char, int)| p.1) =~= c0 + Seq::new(j as nat, |_i: int| col as int));
        }
        col = col + 1;
    }
    let ghost rc = row_chars(cells@, cells.len() as int);
    let mut result: Vec<(usize, usize)> = Vec::new();
    if q.len() == 0 {
        assert(result@.map_values(|p: (usize, usize)| (p.0 as int, p.1 as int)) =~= row_matches_spec(cells@, query@));
        return result;
    }
    let ghost all = occurrences(text@, q@, 0);
    let mut from: usize = 0;
    while q.len() <= text.len() - from
        invariant
            q.len() > 0,
            q@ == query@,
            text.len() == columns.len(),
            text@ == rc.map_values(|p: (char, int)| p.0),
            columns@.map_values(|c: usize| c as int) == rc.map_values(|p: (char, int)| p.1),
            rc == row_chars(cells@, cells.len() as int),
            all == occurrences(text@, q@, 0),
            from <= text.len(),
            result@.map_values(|p: (usize, usize)| (p.0 as int, p.1 as int)) + occurrences(
                text@,
                q@,
                from as int,
            ).map_values(|s: int| (rc[s].1, rc[s + q.len() - 1].1)) == all.map_values(
                |s: int| (rc[s].1, rc[s + q.len() - 1].1),
            ),
        decreases text.len() - from,
    {
        let mut same = true;
        let mut k: usize = 0;
        while k < q.len()
            invariant
                from + q.len() <= text.len(),
                k <= q.len(),
                same == (forall|m: int| 0 <= m < k ==> text@[from + m] == q@[m]),
            decreases q.len() - k,
        {
            if text[from + k] != q[k] {
                same = false;
            }
            k = k + 1;
        }
        let ghost f = |s: int| (rc[s].1, rc[s + q.len() - 1].1);
        if same {
            assert(text@.subrange(from as int, from + q.len()) =~= q@);
            let ghost before = result@.map_values(|p: (usize, usize)| (p.0 as int, p.1 as int));
            let pair = (columns[from], columns[from + q.len() - 1]);
            assert(columns@.map_values(|c: usize| c as int)[from as int] == rc[from as int].1);
            assert(columns@.map_values(|c: usize| c as int)[from + q.len() - 1] == rc[from + q.len() - 1].1);
            result.push(pair);
            assert(result@.map_values(|p: (usize, usize)| (p.0 as int, p.1 as int)) =~= before.push(f(from as int)));
            assert(occurrences(text@, q@, from as int).map_values(f) =~= seq![f(from as int)]
                + occurrences(text@, q@, from + q.len()).map_values(f));
            from = from + q.len();
        } else {
            assert(text@.subrange(from as int, from + q.len()) != q@) by {
                let m = choose|m: int| 0 <= m < q.len() && text@[from + m] != q@[m];
                assert(text@.subrange(from as int, from + q.len())[m] != q@[m]);
            }
            from = from + 1;
        }
    }
    assert(occurrences(text@, q@, from as int) =~= Seq::<int>::empty());
    assert(result@.map_values(|p: (usize, usize)| (p.0 as int, p.1 as int)) =~= row_matches_spec(cells@, query@));
    result
}

/// The match that a search selects among `count`: the one after `current`
/// (after the last the first) for Enter, the last one while typing.
pub fn search_index(current: usize, count: usize, next: bool) -> (i: usize)
    requires
        count > 0,
    ensures
        i < count,
        next ==> i as int == (current as int + 1) % (count as int),
        !next ==> i == count - 1,
{
    if next {
        ((current as u128 + 1) % (count as u128)) as usize
    } else {
        count - 1
    }
}


/// No byte of the UTF-8 form of a character that is not a control character
/// is a control byte.
proof fn lemma_scalar_bytes_printable(c: char)
    requires
        !is_control(c),
    ensures
        forall|i: int|
            0 <= i < encode_scalar(c as u32).len() ==> 0x20 <= #[trigger] encode_scalar(
                c as u32,
            )[i] && encode_scalar(c as u32)[i] != 0x7f,
{
    let v = c as u32;
    vstd::utf8::char_is_scalar(c);
    if v <= 0x7f {
        assert(((v & 0x7f) as u8) as u32 == v) by (bit_vector)
            requires
                v <= 0x7f,
        ;
    } else if v <= 0x7ff {
        let a = ((v >> 6) & 0x1f) as u8;
        let b = (v & 0x3f) as u8;
        assert(0xc0u8 | a >= 0x80u8) by (bit_vector);
        assert(0x80u8 | b >= 0x80u8) by (bit_vector);
    } else if v <= 0xffff {
        let a = ((v >> 12) & 0x0f) as u8;
        let b = ((v >> 6) & 0x3f) as u8;
        let d = (v & 0x3f) as u8;
        assert(0xe0u8 | a >= 0x80u8) by (bit_vector);
        assert(0x80u8 | b >= 0x80u8) by (bit_vector);
        assert(0x80u8 | d >= 0x80u8) by (bit_vector);
    } else {
        let a = ((v >> 18) & 0x7) as u8;
        let b = ((v >> 12) & 0x3f) as u8;
        let d = ((v >> 6) & 0x3f) as u8;
        let e = (v & 0x3f) as u8;
        assert(0xf0u8 | a >= 0x80u8) by (bit_vector);
        assert(0x80u8 | b >= 0x80u8) by (bit_vector);
        assert(0x80u8 | d >= 0x80u8) by (bit_vector);
        assert(0x80u8 | e >= 0x80u8) by (bit_vector);
    }
}

/// Text without control characters is sent without control bytes.
proof fn lemma_utf8_printable(s: Seq<char>)
    requires
        !has_control(s),
    ensures
        forall|i: int|
            0 <= i < encode_utf8(s).len() ==> 0x20 <= #[trigger] encode_utf8(s)[i] && encode_utf8(
                s,
            )[i] != 0x7f,
    decreases s.len(),
{
    if s.len() > 0 {
        assert(!is_control(s[0]));
        lemma_scalar_bytes_printable(s[0]);
        assert(!has_control(s.drop_first())) by {
            assert forall|i: int| 0 <= i < s.drop_first().len() implies !is_control(
                #[trigger] s.drop_first()[i],
            ) by {
                assert(s.drop_first()[i] == s[i + 1]);
            }
        }
        lemma_utf8_printable(s.drop_first());
        let head = encode_scalar(s[0] as u32);
        let tail = encode_utf8(s.drop_first());
        assert(encode_utf8(s) == head + tail);
        assert forall|i: int| 0 <= i < encode_utf8(s).len() implies 0x20 <= #[trigger] encode_utf8(
            s,
        )[i] && encode_utf8(s)[i] != 0x7f by {
            if i < head.len() {
                assert((head + tail)[i] == head[i]);
            } else {
                assert((head + tail)[i] == tail[i - head.len()]);
            }
        }
    }
}

/// Accepting a suggestion types the rest of its command and no control byte:
/// no Enter and no ESC, so it inserts text and never runs it. This holds of
/// every command without control characters, as every command of the history
/// and of the common list is.
pub proof fn lemma_accepting_never_submits(
    live_query: Option<Seq<char>>,
    hint_query: Seq<char>,
    command: Seq<char>,
)
    requires
        !has_control(command),
    ensures
        accepted_suffix_spec(live_query, hint_query, Some(command)) matches Some(b) ==> forall|
            i: int,
        |
            0 <= i < b.len() ==> 0x20 <= #[trigger] b[i] && b[i] != 0x7f,
{
    if let Some(q) = live_query {
        let rest = command.skip(q.len() as int);
        if 0 <= q.len() <= command.len() {
            assert(!has_control(rest)) by {
                assert forall|i: int| 0 <= i < rest.len() implies !is_control(#[trigger] rest[i]) by {
                    assert(rest[i] == command[i + q.len()]);
                }
            }
            lemma_utf8_printable(rest);
        }
    }
}

/// Shift keeps the mouse for the terminal: with Shift held no mouse event is
/// reported to the application (the mouse selects text instead), and the
/// wheel scrolls the view.
pub proof fn lemma_shift_keeps_mouse(
    row: nat,
    col: nat,
    button: nat,
    release: bool,
    m: Modifiers,
    mode: MouseMode,
    rows: nat,
    cols: nat,
    lines: int,
    alternate_screen: bool,
    application_cursor: bool,
)
    requires
        m.shift,
    ensures
        mouse_report_spec(row, col, button, release, m, mode, rows, cols) is None,
        wheel_spec(lines, mode.reporting, alternate_screen, true, application_cursor) == (
            2int,
            lines,
            Seq::<u8>::empty(),
        ),
{
}


/// Every match that the search finds reads the query exactly (the search is
/// case-sensitive), and the matches come from left to right without overlapping.
pub proof fn lemma_occurrences_sound(t: Seq<char>, q: Seq<char>, from: int)
    ensures
        forall|i: int|
            0 <= i < occurrences(t, q, from).len() ==> from <= #[trigger] occurrences(t, q, from)[i]
                && occurrences(t, q, from)[i] + q.len() <= t.len() && t.subrange(
                occurrences(t, q, from)[i],
                occurrences(t, q, from)[i] + q.len(),
            ) == q,
        forall|i: int, j: int|
            0 <= i < j < occurrences(t, q, from).len() ==> #[trigger] occurrences(t, q, from)[i]
                + q.len() <= #[trigger] occurrences(t, q, from)[j],
    decreases t.len() - from,
{
    if q.len() == 0 || from < 0 || from + q.len() > t.len() {
    } else if t.subrange(from, from + q.len()) == q {
        lemma_occurrences_sound(t, q, from + q.len());
        let rest = occurrences(t, q, from + q.len());
        let all = seq![from] + rest;
        assert(occurrences(t, q, from) == all);
        assert forall|i: int| 0 <= i < all.len() implies from <= #[trigger] all[i] && all[i]
            + q.len() <= t.len() && t.subrange(all[i], all[i] + q.len()) == q by {
            if i > 0 {
                assert(all[i] == rest[i - 1]);
            }
        }
        assert forall|i: int, j: int| 0 <= i < j < all.len() implies #[trigger] all[i] + q.len()
            <= #[trigger] all[j] by {
            assert(all[j] == rest[j - 1]);
            if i > 0 {
                assert(all[i] == rest[i - 1]);
            }
        }
    } else {
        lemma_occurrences_sound(t, q, from + 1);
        assert(occurrences(t, q, from) == occurrences(t, q, from + 1));
    }
}

} // verus!
