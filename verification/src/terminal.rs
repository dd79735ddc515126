//! Terminal model: the xterm palette, shell integration marks and the sizes of the grid.
use crate::text::{
    chars_have_control, chars_of, chars_start_with, decode_utf8_lossy, has_control, starts_with,
    lossy_text, string_from_chars,
};
use vstd::prelude::*;

verus! {

/// The number of an RGB color with 8-bit channels.
pub open spec fn rgb(r: nat, g: nat, b: nat) -> nat {
    r * 65536 + g * 256 + b
}

pub open spec fn red(c: u32) -> nat {
    ((c as nat) / 65536) % 256
}

pub open spec fn green(c: u32) -> nat {
    ((c as nat) / 256) % 256
}

pub open spec fn blue(c: u32) -> nat {
    (c as nat) % 256
}

pub open spec fn background_color() -> u32 {
    0x101419
}

pub open spec fn foreground_color() -> u32 {
    0xd8dee9
}

pub open spec fn accent_color() -> u32 {
    0x74d5bb
}

pub const BACKGROUND: u32 = 0x101419;

pub const FOREGROUND: u32 = 0xd8dee9;

pub const ACCENT: u32 = 0x74d5bb;

/// The sixteen ANSI colors of the default skin.
pub open spec fn default_ansi() -> Seq<u32> {
    seq![
        0x26303bu32,
        0xef7d8e,
        0x91d7a3,
        0xeac48b,
        0x82aaff,
        0xc3a6ff,
        0x7dd6df,
        0xd8dee9,
        0x657387,
        0xff96a7,
        0xb4edb5,
        0xffdfa8,
        0xaac5ff,
        0xdcc3ff,
        0xa0eef4,
        0xf2f5fa,
    ]
}

pub fn default_ansi_array() -> (a: [u32; 16])
    ensures
        a@ == default_ansi(),
{
    let a = [
        0x26303bu32,
        0xef7d8e,
        0x91d7a3,
        0xeac48b,
        0x82aaff,
        0xc3a6ff,
        0x7dd6df,
        0xd8dee9,
        0x657387,
        0xff96a7,
        0xb4edb5,
        0xffdfa8,
        0xaac5ff,
        0xdcc3ff,
        0xa0eef4,
        0xf2f5fa,
    ];
    assert(a@ =~= default_ansi());
    a
}

/// Three quarters of each channel, each quarter and half rounded down.
pub open spec fn dim_spec(c: u32) -> nat {
    rgb(
        red(c) / 2 + red(c) / 4,
        green(c) / 2 + green(c) / 4,
        blue(c) / 2 + blue(c) / 4,
    )
}

/// The faint variant of a color: each channel at about three quarters.
pub fn dim(color: u32) -> (r: u32)
    ensures
        r as nat == dim_spec(color),
{
    let red = (color / 65536) % 256;
    let green = (color / 256) % 256;
    let blue = color % 256;
    (red / 2 + red / 4) * 65536 + (green / 2 + green / 4) * 256 + (blue / 2 + blue / 4)
}

/// Channel level `k` (0 to 5) of the xterm 6x6x6 color cube.
pub open spec fn cube_level(k: nat) -> nat {
    if k == 0 {
        0
    } else {
        55 + 40 * k
    }
}

/// The xterm 256-color palette, extended with the terminal's named colors:
/// 256 foreground, 257 background, 258 accent (cursor), 259 to 266 the dim
/// variants of the eight normal colors.
pub open spec fn indexed_color_spec(index: nat) -> nat {
    if index < 16 {
        default_ansi()[index as int] as nat
    } else if index < 232 {
        let c = (index - 16) as nat;
        rgb(cube_level(c / 36), cube_level((c / 6) % 6), cube_level(c % 6))
    } else if index < 256 {
        let g = (8 + 10 * (index - 232)) as nat;
        rgb(g, g, g)
    } else if index == 257 {
        background_color() as nat
    } else if index == 258 {
        accent_color() as nat
    } else if 259 <= index && index <= 266 {
        dim_spec(default_ansi()[index - 259])
    } else {
        foreground_color() as nat
    }
}

fn cube_level_of(k: usize) -> (r: u32)
    requires
        k < 6,
    ensures
        r as nat == cube_level(k as nat),
{
    if k == 0 {
        0
    } else {
        55 + 40 * (k as u32)
    }
}

pub fn indexed_color(index: usize) -> (r: u32)
    ensures
        r as nat == indexed_color_spec(index as nat),
{
    if index < 16 {
        let palette = default_ansi_array();
        palette[index]
    } else if index < 232 {
        let c = index - 16;
        cube_level_of(c / 36) * 65536 + cube_level_of((c / 6) % 6) * 256 + cube_level_of(c % 6)
    } else if index < 256 {
        let g = 8 + ((index - 232) as u32) * 10;
        g * 65536 + g * 256 + g
    } else if index == 257 {
        BACKGROUND
    } else if index == 258 {
        ACCENT
    } else if 259 <= index && index <= 266 {
        let palette = default_ansi_array();
        dim(palette[index - 259])
    } else {
        FOREGROUND
    }
}


/// Value of the decimal digits `d`, most significant first.
pub open spec fn decimal_value(d: Seq<char>) -> int
    decreases d.len(),
{
    if d.len() == 0 {
        0
    } else {
        decimal_value(d.drop_last()) * 10 + ((d.last() as u32) - 48)
    }
}

pub open spec fn all_digits(d: Seq<char>) -> bool {
    forall|i: int| 0 <= i < d.len() ==> '0' <= #[trigger] d[i] && d[i] <= '9'
}

/// `i32`'s `FromStr`: an optional sign, then at least one ASCII digit, and a value in range.
pub open spec fn parse_i32_spec(s: Seq<char>) -> Option<i32> {
    let negative = s.len() > 0 && s[0] == '-';
    let digits = if s.len() > 0 && (s[0] == '-' || s[0] == '+') {
        s.drop_first()
    } else {
        s
    };
    if digits.len() == 0 || !all_digits(digits) {
        None
    } else {
        let v = if negative {
            -decimal_value(digits)
        } else {
            decimal_value(digits)
        };
        if i32::MIN <= v && v <= i32::MAX {
            Some(v as i32)
        } else {
            None
        }
    }
}

proof fn lemma_decimal_value_monotone(d: Seq<char>, k: int)
    requires
        all_digits(d),
        0 <= k <= d.len(),
    ensures
        0 <= decimal_value(d.take(k)) <= decimal_value(d),
    decreases d.len() - k,
{
    if k < d.len() {
        lemma_decimal_value_monotone(d, k + 1);
        assert(d.take(k + 1).drop_last() =~= d.take(k));
        assert('0' <= d[k] && d[k] <= '9');
        lemma_decimal_value_nonneg(d.take(k));
    } else {
        assert(d.take(k) =~= d);
        lemma_decimal_value_nonneg(d);
    }
}

proof fn lemma_decimal_value_nonneg(d: Seq<char>)
    requires
        all_digits(d),
    ensures
        decimal_value(d) >= 0,
    decreases d.len(),
{
    if d.len() > 0 {
        assert(all_digits(d.drop_last())) by {
            assert forall|i: int| 0 <= i < d.drop_last().len() implies '0' <= #[trigger] d.drop_last()[i]
                && d.drop_last()[i] <= '9' by {
                assert(d.drop_last()[i] == d[i]);
            }
        }
        lemma_decimal_value_nonneg(d.drop_last());
        assert('0' <= d[d.len() - 1]);
    }
}

/// Parse `s` as `i32` does: an optional sign and decimal digits.
pub fn parse_i32(s: &Vec<char>) -> (r: Option<i32>)
    ensures
        r == parse_i32_spec(s@),
{
    let negative = s.len() > 0 && s[0] == '-';
    let start: usize = if s.len() > 0 && (s[0] == '-' || s[0] == '+') {
        1
    } else {
        0
    };
    let ghost digits = if s@.len() > 0 && (s@[0] == '-' || s@[0] == '+') {
        s@.drop_first()
    } else {
        s@
    };
    assert(digits =~= s@.subrange(start as int, s.len() as int));
    if start == s.len() {
        return None;
    }
    let mut value: i64 = 0;
    let mut i: usize = start;
    while i < s.len()
        invariant
            start <= i <= s.len(),
            digits == s@.subrange(start as int, s.len() as int),
            digits == (if s@.len() > 0 && (s@[0] == '-' || s@[0] == '+') {
                s@.drop_first()
            } else {
                s@
            }),
            forall|k: int| 0 <= k < i - start ==> '0' <= #[trigger] digits[k] && digits[k] <= '9',
            value == decimal_value(digits.take(i - start)),
            0 <= value <= 2147483648,
        decreases s.len() - i,
    {
        let c = s[i];
        if !('0' <= c && c <= '9') {
            assert(digits[i - start] == c);
            return None;
        }
        assert(digits.take(i - start + 1).drop_last() =~= digits.take(i - start));
        assert(digits[i - start] == c);
        let next = value * 10 + ((c as u32) - 48) as i64;
        if next > 2147483648 {
            proof {
                assert(all_digits(digits.take(i - start + 1)));
                if all_digits(digits) {
                    lemma_decimal_value_monotone(digits, i - start + 1);
                }
            }
            return None;
        }
        value = next;
        i = i + 1;
    }
    assert(digits.take(i - start) =~= digits);
    if negative {
        Some((-value) as i32)
    } else if value <= 2147483647 {
        Some(value as i32)
    } else {
        None
    }
}

/// What the shell integration knows of a session, as numbers and text:
/// working directory, whether the prompt is waiting for input, the number
/// of prompts shown and the exit code of the last command.
pub type MarksView = (Seq<char>, bool, int, Option<i32>);

/// The state of the OSC scanner: whether the last byte was ESC, and the
/// payload of the OSC sequence being read, if any.
pub type ScannerView = (bool, Option<Seq<u8>>);

pub open spec fn prompt_start() -> Seq<char> {
    "133;A"@
}

pub open spec fn cwd_prefix() -> Seq<char> {
    "7;file://localhost/"@
}

/// The effect of one OSC payload on the marks: `133;A` a prompt starts (with
/// the exit code of the previous command after `133;A;`), `133;B` input
/// starts, `133;C` a command runs, `7;file://localhost/` a new directory.
pub open spec fn apply_payload(m: MarksView, p: Seq<char>) -> MarksView {
    if starts_with(p, prompt_start()) {
        (
            m.0,
            false,
            m.2 + 1,
            if starts_with(p, "133;A;"@) {
                parse_i32_spec(p.skip(6))
            } else {
                None
            },
        )
    } else if p == "133;B"@ {
        (m.0, true, m.2, m.3)
    } else if p == "133;C"@ {
        (m.0, false, m.2, m.3)
    } else if starts_with(p, cwd_prefix()) && !has_control(p.skip(cwd_prefix().len() as int)) {
        (p.skip(cwd_prefix().len() as int), m.1, m.2, m.3)
    } else {
        m
    }
}

/// The longest OSC payload that is kept; longer sequences are dropped.
pub open spec fn max_payload() -> nat {
    8192
}

/// One byte of PTY output through the OSC scanner. Sequences end with BEL or
/// with ESC `\`.
pub open spec fn scan_byte(sc: ScannerView, m: MarksView, b: u8) -> (ScannerView, MarksView) {
    match sc.1 {
        Some(buf) => {
            if b == 7 || (sc.0 && b == 92) {
                let payload = if sc.0 && b == 92 && buf.len() > 0 {
                    buf.drop_last()
                } else {
                    buf
                };
                ((false, None), apply_payload(m, lossy_text(payload)))
            } else if buf.len() >= max_payload() {
                ((false, None), m)
            } else {
                ((b == 27, Some(buf.push(b))), m)
            }
        },
        None => {
            if sc.0 && b == 93 {
                ((false, Some(Seq::<u8>::empty())), m)
            } else {
                ((b == 27, None), m)
            }
        },
    }
}

/// Bytes of PTY output through the OSC scanner, in order.
pub open spec fn scan(sc: ScannerView, m: MarksView, bytes: Seq<u8>) -> (ScannerView, MarksView)
    decreases bytes.len(),
{
    if bytes.len() == 0 {
        (sc, m)
    } else {
        let (sc1, m1) = scan_byte(sc, m, bytes[0]);
        scan(sc1, m1, bytes.drop_first())
    }
}

/// Output read in two pieces has the effect of the same output read at once:
/// sequences split across PTY reads are handled as if they were not.
pub proof fn lemma_scan_split(sc: ScannerView, m: MarksView, a: Seq<u8>, b: Seq<u8>)
    ensures
        scan(sc, m, a + b) == ({
            let (sc1, m1) = scan(sc, m, a);
            scan(sc1, m1, b)
        }),
    decreases a.len(),
{
    if a.len() > 0 {
        let (sc1, m1) = scan_byte(sc, m, a[0]);
        assert((a + b).drop_first() =~= a.drop_first() + b);
        lemma_scan_split(sc1, m1, a.drop_first(), b);
    } else {
        assert(a + b =~= b);
    }
}

/// The tracked working directory never gets a control character from the
/// shell's output: a reported path holding one is ignored.
pub proof fn lemma_scan_cwd_clean(sc: ScannerView, m: MarksView, bytes: Seq<u8>)
    requires
        !has_control(m.0),
    ensures
        !has_control(scan(sc, m, bytes).1.0),
    decreases bytes.len(),
{
    if bytes.len() > 0 {
        let (sc1, m1) = scan_byte(sc, m, bytes[0]);
        lemma_scan_cwd_clean(sc1, m1, bytes.drop_first());
    }
}

/// The payload that the scanner holds never grows past 8192 bytes, however
/// long a sequence the output holds.
pub proof fn lemma_scan_buffer_bounded(sc: ScannerView, m: MarksView, bytes: Seq<u8>)
    requires
        sc.1 matches Some(b) ==> b.len() <= max_payload(),
    ensures
        scan(sc, m, bytes).0.1 matches Some(b) ==> b.len() <= max_payload(),
    decreases bytes.len(),
{
    if bytes.len() > 0 {
        let (sc1, m1) = scan_byte(sc, m, bytes[0]);
        lemma_scan_buffer_bounded(sc1, m1, bytes.drop_first());
    }
}

/// The scanner never counts more prompts than output bytes.
pub proof fn lemma_scan_prompt_bound(sc: ScannerView, m: MarksView, bytes: Seq<u8>)
    ensures
        m.2 <= scan(sc, m, bytes).1.2 <= m.2 + bytes.len(),
    decreases bytes.len(),
{
    if bytes.len() > 0 {
        let (sc1, m1) = scan_byte(sc, m, bytes[0]);
        lemma_scan_prompt_bound(sc1, m1, bytes.drop_first());
    }
}

/// Shell integration marks of a session, kept up to date from its output.
pub struct ShellMarks {
    pub cwd: String,
    pub at_prompt: bool,
    pub prompt_count: u64,
    pub last_exit: Option<i32>,
}

impl ShellMarks {
    pub open spec fn view(&self) -> MarksView {
        (self.cwd@, self.at_prompt, self.prompt_count as int, self.last_exit)
    }

    /// The marks of a new session in `cwd`: no prompt yet.
    pub fn new(cwd: String) -> (m: Self)
        ensures
            m@ == (cwd@, false, 0int, None::<i32>),
    {
        ShellMarks { cwd, at_prompt: false, prompt_count: 0, last_exit: None }
    }

    /// Apply one OSC payload.
    pub fn dispatch(&mut self, payload: &str)
        requires
            old(self).prompt_count < u64::MAX,
        ensures
            final(self)@ == apply_payload(old(self)@, payload@),
    {
        let p = chars_of(payload);
        let start = chars_of("133;A");
        if chars_start_with(&p, &start) {
            self.at_prompt = false;
            self.prompt_count = self.prompt_count + 1;
            let with_code = chars_of("133;A;");
            proof {
                reveal_strlit("133;A;");
            }
            self.last_exit = if chars_start_with(&p, &with_code) {
                let mut rest: Vec<char> = Vec::new();
                let mut i: usize = 6;
                while i < p.len()
                    invariant
                        6 <= i <= p.len(),
                        rest@ == p@.subrange(6, i as int),
                    decreases p.len() - i,
                {
                    rest.push(p[i]);
                    i = i + 1;
                }
                assert(rest@ =~= p@.skip(6));
                parse_i32(&rest)
            } else {
                None
            };
            return ;
        }
        let b = chars_of("133;B");
        let c = chars_of("133;C");
        if crate::text::chars_eq(&p, &b) {
            self.at_prompt = true;
        } else if crate::text::chars_eq(&p, &c) {
            self.at_prompt = false;
        } else {
            let prefix = chars_of("7;file://localhost/");
            if chars_start_with(&p, &prefix) {
                let n = prefix.len();
                let mut path: Vec<char> = Vec::new();
                let mut i: usize = n;
                while i < p.len()
                    invariant
                        n <= i <= p.len(),
                        path@ == p@.subrange(n as int, i as int),
                    decreases p.len() - i,
                {
                    path.push(p[i]);
                    i = i + 1;
                }
                assert(path@ =~= p@.skip(n as int));
                if !chars_have_control(&path) {
                    self.cwd = string_from_chars(&path);
                }
            }
        }
    }
}

/// Streaming OSC observer. It never removes bytes from the terminal parser and
/// handles sequences split across arbitrary PTY read boundaries.
pub struct Integration {
    escape: bool,
    osc: Option<Vec<u8>>,
}

impl Integration {
    pub closed spec fn view(&self) -> ScannerView {
        (
            self.escape,
            match self.osc {
                Some(b) => Some(b@),
                None => None,
            },
        )
    }

    pub fn new() -> (i: Self)
        ensures
            i@ == (false, None::<Seq<u8>>),
    {
        Integration { escape: false, osc: None }
    }

    /// Observe a chunk of PTY output.
    pub fn process(&mut self, bytes: &[u8], marks: &mut ShellMarks)
        requires
            old(marks).prompt_count + bytes@.len() <= u64::MAX,
        ensures
            (final(self)@, final(marks)@) == scan(old(self)@, old(marks)@, bytes@),
    {
        let mut i: usize = 0;
        assert(bytes@.skip(0) =~= bytes@);
        while i < bytes.len()
            invariant
                i <= bytes.len(),
                marks.prompt_count + (bytes@.len() - i) <= u64::MAX,
                scan(old(self)@, old(marks)@, bytes@) == scan(self@, marks@, bytes@.skip(i as int)),
            decreases bytes.len() - i,
        {
            let byte = bytes[i];
            let ghost before = (self@, marks@);
            assert(bytes@.skip(i as int)[0] == byte);
            assert(bytes@.skip(i as int).drop_first() =~= bytes@.skip(i + 1));
            let mut finished: Option<Vec<u8>> = None;
            match self.osc.take() {
                Some(mut buffer) => {
                    if byte == 7 || (self.escape && byte == 92) {
                        if self.escape && byte == 92 && buffer.len() > 0 {
                            buffer.pop();
                        }
                        self.escape = false;
                        finished = Some(buffer);
                    } else if buffer.len() >= 8192 {
                        self.escape = false;
                    } else {
                        buffer.push(byte);
                        self.escape = byte == 27;
                        self.osc = Some(buffer);
                    }
                },
                None => {
                    if self.escape && byte == 93 {
                        self.osc = Some(Vec::new());
                        self.escape = false;
                    } else {
                        self.escape = byte == 27;
                    }
                },
            }
            if let Some(buffer) = finished {
                let payload = decode_utf8_lossy(buffer.as_slice());
                marks.dispatch(payload.as_str());
            }
            assert((self@, marks@) == scan_byte(before.0, before.1, byte));
            proof {
                lemma_scan_prompt_bound(before.0, before.1, seq![byte]);
                assert(seq![byte].drop_first() =~= Seq::<u8>::empty());
            }
            i = i + 1;
        }
        assert(bytes@.skip(i as int) =~= Seq::<u8>::empty());
    }
}


/// The size of a terminal grid in character cells.
#[derive(Clone, Copy, Debug, PartialEq, Eq, Structural)]
pub struct Size {
    pub rows: u16,
    pub cols: u16,
}

pub open spec fn clamp_spec(v: int, lo: int, hi: int) -> int {
    if v < lo {
        lo
    } else if v > hi {
        hi
    } else {
        v
    }
}

impl Size {
    /// The grid of a new session: 28 rows of 100 columns.
    pub fn initial() -> (s: Size)
        ensures
            s.rows == 28 && s.cols == 100,
    {
        Size { rows: 28, cols: 100 }
    }

    /// The size a resize request gets: 2 to 500 rows and 2 to 1000 columns.
    pub fn clamped(rows: u16, cols: u16) -> (s: Size)
        ensures
            s.rows as int == clamp_spec(rows as int, 2, 500),
            s.cols as int == clamp_spec(cols as int, 2, 1000),
    {
        let r = if rows < 2 {
            2
        } else if rows > 500 {
            500
        } else {
            rows
        };
        let c = if cols < 2 {
            2
        } else if cols > 1000 {
            1000
        } else {
            cols
        };
        Size { rows: r, cols: c }
    }

    /// The size after a resize request, and whether it differs from this one
    /// (only then are the PTY and the grid resized).
    pub fn resize(self, rows: u16, cols: u16) -> (r: (Size, bool))
        ensures
            r.0 == Size::clamped_spec(rows, cols),
            r.1 == (r.0 != self),
    {
        let s = Size::clamped(rows, cols);
        (s, !(s == self))
    }

    pub open spec fn clamped_spec(rows: u16, cols: u16) -> Size {
        Size {
            rows: clamp_spec(rows as int, 2, 500) as u16,
            cols: clamp_spec(cols as int, 2, 1000) as u16,
        }
    }

    /// The grid point of a mouse position given as visible row and column,
    /// clamped into the grid: the line counts from the top of the live screen,
    /// so it is negative in the scrollback.
    pub fn selection_point(self, row: usize, col: usize, display_offset: usize) -> (p: (i64, usize))
        requires
            self.rows >= 1,
            self.cols >= 1,
            display_offset <= i32::MAX,
        ensures
            p.0 == (if row < self.rows { row as int } else { self.rows - 1 }) - display_offset,
            p.1 == (if col < self.cols { col as int } else { self.cols - 1 }),
    {
        let r = if row < self.rows as usize {
            row
        } else {
            self.rows as usize - 1
        };
        let c = if col < self.cols as usize {
            col
        } else {
            self.cols as usize - 1
        };
        (r as i64 - display_offset as i64, c)
    }
}

/// A clamped size is within the grid's bounds, and asking for it again
/// changes nothing: a second identical resize leaves the PTY alone.
pub proof fn lemma_resize_settles(rows: u16, cols: u16)
    ensures
        2 <= Size::clamped_spec(rows, cols).rows <= 500,
        2 <= Size::clamped_spec(rows, cols).cols <= 1000,
        Size::clamped_spec(Size::clamped_spec(rows, cols).rows, Size::clamped_spec(rows, cols).cols)
            == Size::clamped_spec(rows, cols),
{
}

/// The longest window title kept, in characters.
pub open spec fn max_title() -> nat {
    160
}

/// A title as the tab shows it: without control characters, at most 160 characters.
pub open spec fn clean_title(t: Seq<char>) -> Seq<char> {
    let kept = t.filter(|c: char| !crate::text::is_control(c));
    if kept.len() <= max_title() {
        kept
    } else {
        kept.take(max_title() as int)
    }
}

/// A title keeps at most 160 characters and no control character.
pub proof fn lemma_clean_title(t: Seq<char>)
    ensures
        clean_title(t).len() <= max_title(),
        !has_control(clean_title(t)),
{
    let pred = |c: char| !crate::text::is_control(c);
    let kept = t.filter(pred);
    assert forall|i: int| 0 <= i < clean_title(t).len() implies !crate::text::is_control(
        #[trigger] clean_title(t)[i],
    ) by {
        t.lemma_filter_pred(pred, i);
    }
}

pub fn sanitize_title(title: &str) -> (r: String)
    ensures
        r@ == clean_title(title@),
{
    let chars = chars_of(title);
    let mut kept: Vec<char> = Vec::new();
    let mut i: usize = 0;
    let ghost pred = |c: char| !crate::text::is_control(c);
    while i < chars.len()
        invariant
            i <= chars.len(),
            chars@ == title@,
            pred == (|c: char| !crate::text::is_control(c)),
            kept@ == clean_title(chars@.take(i as int)),
        decreases chars.len() - i,
    {
        proof {
            reveal_with_fuel(Seq::<_>::filter, 1);
            assert(chars@.take(i + 1).drop_last() =~= chars@.take(i as int));
        }
        let ghost all = chars@.take(i as int).filter(pred);
        let ghost all2 = chars@.take(i + 1).filter(pred);
        let c = chars[i];
        if !crate::text::char_is_control(c) {
            assert(all2 == all.push(c));
            if kept.len() < 160 {
                kept.push(c);
                assert(kept@ =~= clean_title(chars@.take(i + 1)));
            } else {
                assert(all.take(160) =~= all2.take(160));
            }
        } else {
            assert(all2 == all);
        }
        i = i + 1;
    }
    assert(chars@.take(i as int) =~= chars@);
    string_from_chars(&kept)
}

/// A cell of a grid row, as the prompt reader and the search read it.
pub struct RowCell {
    pub c: char,
    /// The cell is the spacer right of a wide character.
    pub wide_spacer: bool,
    /// Zero-width characters combined with the cell's character.
    pub zero_width: Vec<char>,
}

/// The characters that a cell adds to the text of its line.
pub open spec fn cell_text(cell: RowCell) -> Seq<char> {
    (if cell.wide_spacer {
        Seq::<char>::empty()
    } else {
        seq![cell.c]
    }) + cell.zero_width@
}

/// The text of cells `from` (inclusive) to `to` (exclusive).
pub open spec fn cells_text(cells: Seq<RowCell>, from: int, to: int) -> Seq<char>
    decreases to - from,
{
    if to <= from {
        Seq::<char>::empty()
    } else {
        cells_text(cells, from, to - 1) + cell_text(cells[to - 1])
    }
}

/// The state of the terminal that decides whether the user is typing at the
/// integrated prompt, and the cursor's row.
pub struct PromptLine {
    pub at_prompt: bool,
    pub closed: bool,
    pub alternate_screen: bool,
    pub display_offset: usize,
    pub cursor_col: usize,
    pub cells: Vec<RowCell>,
}

/// The prompt sign that the integrated Bash prompt starts its input line with.
pub open spec fn prompt_sign() -> char {
    '❯'
}

/// What the user has typed at the integrated Bash prompt, where the cursor
/// stands at the end of a single input line: `None` elsewhere.
pub open spec fn input_query_spec(l: PromptLine) -> Option<Seq<char>> {
    let cells = l.cells@;
    if !l.at_prompt || l.closed || l.alternate_screen || l.display_offset != 0 {
        None
    } else if l.cursor_col < 2 || cells[0].c != prompt_sign() || cells[1].c != ' ' {
        None
    } else if exists|k: int| l.cursor_col <= k < cells.len() && (#[trigger] cells[k]).c != ' ' {
        None
    } else {
        Some(cells_text(cells, 2, l.cursor_col as int))
    }
}

/// Suggestions read only the integrated prompt's live line: there is no query
/// unless the shell waits at its prompt, the session is open, no full-screen
/// program holds the alternate screen, the view is not scrolled back, and the
/// cursor line starts with the prompt sign; the query is what lies between the
/// prompt and the cursor.
pub proof fn lemma_query_only_at_prompt(l: PromptLine)
    ensures
        input_query_spec(l) is Some ==> {
            &&& l.at_prompt
            &&& !l.closed
            &&& !l.alternate_screen
            &&& l.display_offset == 0
            &&& l.cursor_col >= 2
            &&& l.cells@[0].c == prompt_sign()
            &&& input_query_spec(l) == Some(cells_text(l.cells@, 2, l.cursor_col as int))
        },
{
}

/// Suggest only for the integrated Bash prompt, at the end of a single line.
/// Reading the rendered line also handles Readline history and editing faithfully.
pub fn input_query(l: &PromptLine) -> (r: Option<String>)
    requires
        l.cursor_col <= l.cells.len(),
    ensures
        match r {
            Some(q) => input_query_spec(*l) == Some(q@),
            None => input_query_spec(*l) is None,
        },
{
    if !l.at_prompt || l.closed || l.alternate_screen || l.display_offset != 0 {
        return None;
    }
    if l.cursor_col < 2 || l.cells[0].c != '❯' || l.cells[1].c != ' ' {
        return None;
    }
    let mut k = l.cursor_col;
    while k < l.cells.len()
        invariant
            l.cursor_col <= k <= l.cells.len(),
            forall|j: int| l.cursor_col <= j < k ==> (#[trigger] l.cells@[j]).c == ' ',
        decreases l.cells.len() - k,
    {
        if l.cells[k].c != ' ' {
            return None;
        }
        k = k + 1;
    }
    let mut query: Vec<char> = Vec::new();
    let mut col: usize = 2;
    while col < l.cursor_col
        invariant
            2 <= col <= l.cursor_col,
            l.cursor_col <= l.cells.len(),
            query@ == cells_text(l.cells@, 2, col as int),
        decreases l.cursor_col - col,
    {
        let cell = &l.cells[col];
        let ghost before = query@;
        if !cell.wide_spacer {
            query.push(cell.c);
        }
        let mut z: usize = 0;
        let ghost mid = query@;
        while z < cell.zero_width.len()
            invariant
                z <= cell.zero_width.len(),
                query@ == mid + cell.zero_width@.take(z as int),
            decreases cell.zero_width.len() - z,
        {
            query.push(cell.zero_width[z]);
            z = z + 1;
            assert(query@ =~= mid + cell.zero_width@.take(z as int));
        }
        assert(cell.zero_width@.take(z as int) =~= cell.zero_width@);
        assert(query@ =~= before + cell_text(l.cells@[col as int]));
        col = col + 1;
    }
    Some(string_from_chars(&query))
}


/// A cell color as the terminal parser reports it.
#[derive(Clone, Copy, Debug, PartialEq, Eq, Structural)]
pub enum CellColor {
    /// An explicit 24-bit color.
    Rgb(u32),
    /// One of the 256 indexed colors.
    Indexed(u8),
    /// A named color, by its palette index (0 to 15 the ANSI colors, 256
    /// foreground, 257 background, 258 cursor, 259 to 266 the dim colors).
    Named(u16),
}

/// A grid cell with what painting needs of it.
pub struct GridCell {
    pub c: char,
    pub zero_width: Vec<char>,
    pub fg: CellColor,
    pub bg: CellColor,
    pub bold: bool,
    pub dim: bool,
    pub inverse: bool,
    pub hidden: bool,
    /// The cell holds the spacer of a wide character.
    pub spacer: bool,
    /// The cell is underlined or struck out.
    pub decorated: bool,
    /// The cell is in the selection.
    pub selected: bool,
}

/// The background of selected cells.
pub open spec fn selection_background() -> u32 {
    0x344c5b
}

/// The number of a palette entry: the color the application set for it, or the default palette's.
pub open spec fn palette_entry(colors: Seq<Option<u32>>, index: int) -> nat {
    match colors[index] {
        Some(c) => c as nat,
        None => indexed_color_spec(index as nat),
    }
}

pub open spec fn resolve_color(c: CellColor, colors: Seq<Option<u32>>) -> nat {
    match c {
        CellColor::Rgb(v) => v as nat,
        CellColor::Indexed(i) => palette_entry(colors, i as int),
        CellColor::Named(n) => palette_entry(colors, n as int),
    }
}

pub open spec fn color_in_range(c: CellColor, colors: Seq<Option<u32>>) -> bool {
    match c {
        CellColor::Rgb(_) => true,
        CellColor::Indexed(i) => (i as int) < colors.len(),
        CellColor::Named(n) => (n as int) < colors.len(),
    }
}

/// Foreground of a cell: bold text in one of the eight normal named colors
/// takes its bright variant, and faint text is dimmed.
pub open spec fn cell_foreground(cell: GridCell, colors: Seq<Option<u32>>) -> nat {
    let base = match cell.fg {
        CellColor::Named(n) => if cell.bold && n < 8 {
            indexed_color_spec((n + 8) as nat)
        } else {
            resolve_color(cell.fg, colors)
        },
        _ => resolve_color(cell.fg, colors),
    };
    if cell.dim {
        dim_spec(base as u32)
    } else {
        base
    }
}

/// The foreground and background a cell is painted with: inverse video swaps
/// them, and a selected cell takes the selection background.
pub open spec fn cell_colors(cell: GridCell, colors: Seq<Option<u32>>) -> (nat, nat) {
    let fg = cell_foreground(cell, colors);
    let bg = resolve_color(cell.bg, colors);
    let (f, b) = if cell.inverse {
        (bg, fg)
    } else {
        (fg, bg)
    };
    (
        f,
        if cell.selected {
            selection_background() as nat
        } else {
            b
        },
    )
}

/// The text a cell is painted with: nothing for hidden text and for the
/// spacers of wide characters, then the zero-width characters.
pub open spec fn cell_paint_text(cell: GridCell) -> Seq<char> {
    (if cell.hidden || cell.spacer {
        Seq::<char>::empty()
    } else {
        seq![cell.c]
    }) + cell.zero_width@
}

/// A blank cell on the default background without decoration is not painted.
pub open spec fn cell_is_blank(cell: GridCell, colors: Seq<Option<u32>>) -> bool {
    cell_paint_text(cell) == seq![' '] && cell_colors(cell, colors).1 == background_color() as nat
        && !cell.decorated
}

/// How a cell is painted.
pub struct CellPaint {
    pub text: String,
    pub fg: u32,
    pub bg: u32,
}

fn resolve_color_exec(c: CellColor, colors: &Vec<Option<u32>>) -> (r: u32)
    requires
        color_in_range(c, colors@),
    ensures
        r as nat == resolve_color(c, colors@),
{
    match c {
        CellColor::Rgb(v) => v,
        CellColor::Indexed(i) => match colors[i as usize] {
            Some(v) => v,
            None => indexed_color(i as usize),
        },
        CellColor::Named(n) => match colors[n as usize] {
            Some(v) => v,
            None => indexed_color(n as usize),
        },
    }
}

/// How to paint a cell, or `None` for a blank cell that needs no painting.
/// `colors` are the palette entries that the application has set.
pub fn paint_cell(cell: &GridCell, colors: &Vec<Option<u32>>) -> (r: Option<CellPaint>)
    requires
        color_in_range(cell.fg, colors@),
        color_in_range(cell.bg, colors@),
    ensures
        match r {
            Some(p) => !cell_is_blank(*cell, colors@) && p.text@ == cell_paint_text(*cell) && (
            p.fg as nat, p.bg as nat) == cell_colors(*cell, colors@),
            None => cell_is_blank(*cell, colors@),
        },
{
    let mut fg = match cell.fg {
        CellColor::Named(n) => if cell.bold && n < 8 {
            indexed_color((n + 8) as usize)
        } else {
            resolve_color_exec(cell.fg, colors)
        },
        _ => resolve_color_exec(cell.fg, colors),
    };
    if cell.dim {
        fg = dim(fg);
    }
    let mut bg = resolve_color_exec(cell.bg, colors);
    if cell.inverse {
        let t = fg;
        fg = bg;
        bg = t;
    }
    if cell.selected {
        bg = 0x344c5b;
    }
    let mut text: Vec<char> = Vec::new();
    if !(cell.hidden || cell.spacer) {
        text.push(cell.c);
    }
    let ghost head = text@;
    let mut z: usize = 0;
    while z < cell.zero_width.len()
        invariant
            z <= cell.zero_width.len(),
            text@ == head + cell.zero_width@.take(z as int),
        decreases cell.zero_width.len() - z,
    {
        text.push(cell.zero_width[z]);
        z = z + 1;
        assert(text@ =~= head + cell.zero_width@.take(z as int));
    }
    assert(cell.zero_width@.take(z as int) =~= cell.zero_width@);
    assert(text@ =~= cell_paint_text(*cell));
    if text.len() == 1 && text[0] == ' ' && bg == BACKGROUND && !cell.decorated {
        assert(text@ =~= seq![' ']);
        return None;
    }
    proof {
        if text@ == seq![' '] {
            assert(text.len() == 1 && text@[0] == ' ');
        }
    }
    Some(CellPaint { text: string_from_chars(&text), fg, bg })
}

/// Where the cursor is drawn: its visible row and column, or `None` where the
/// application hides it, it lies outside the visible rows, or its shape is hidden.
pub open spec fn cursor_cell_spec(
    shown: bool,
    line: int,
    display_offset: int,
    screen_lines: int,
    column: int,
    hidden_shape: bool,
) -> Option<(int, int)> {
    let row = line + display_offset;
    if shown && 0 <= row < screen_lines && !hidden_shape {
        Some((row, column))
    } else {
        None
    }
}

pub fn cursor_cell(
    shown: bool,
    line: i32,
    display_offset: usize,
    screen_lines: usize,
    column: usize,
    hidden_shape: bool,
) -> (r: Option<(usize, usize)>)
    requires
        display_offset <= i32::MAX,
    ensures
        match r {
            Some((row, col)) => cursor_cell_spec(
                shown,
                line as int,
                display_offset as int,
                screen_lines as int,
                column as int,
                hidden_shape,
            ) == Some((row as int, col as int)),
            None => cursor_cell_spec(
                shown,
                line as int,
                display_offset as int,
                screen_lines as int,
                column as int,
                hidden_shape,
            ) is None,
        },
{
    let row = line as i64 + display_offset as i64;
    if shown && row >= 0 && (row as u64) < (screen_lines as u64) && !hidden_shape {
        Some((row as usize, column))
    } else {
        None
    }
}


/// An OSC payload of ASCII bytes is read as the characters of those bytes.
pub proof fn lemma_ascii_payload(p: Seq<u8>)
    requires
        forall|i: int| 0 <= i < p.len() ==> p[i] < 0x80,
    ensures
        lossy_text(p) == p.map_values(|b: u8| b as char),
{
    let cs = p.map_values(|b: u8| b as char);
    crate::text::lemma_ascii_encodes(p);
    vstd::utf8::encode_utf8_valid_utf8(cs);
    vstd::utf8::encode_utf8_decode_utf8(cs);
}


/// A working-directory report `OSC 7;file://localhost/PATH` sets the tracked
/// directory to PATH exactly, every character after the prefix kept (so a
/// path `/c/Users/me` stays absolute), where PATH has no control character;
/// the prompt state, the prompt count and the last exit code are kept.
pub proof fn lemma_cwd_report(m: MarksView, path: Seq<char>)
    requires
        !has_control(path),
    ensures
        apply_payload(m, "7;file://localhost/"@ + path) == (path, m.1, m.2, m.3),
{
    reveal_strlit("7;file://localhost/");
    reveal_strlit("133;A");
    reveal_strlit("133;B");
    reveal_strlit("133;C");
    let prefix = "7;file://localhost/"@;
    let p = prefix + path;
    assert(prefix.len() == 19);
    assert(p.subrange(0, 19) =~= prefix);
    assert(p.skip(19) =~= path);
    assert(p[0] == '7');
    assert("133;A"@[0] == '1' && "133;B"@[0] == '1' && "133;C"@[0] == '1');
    assert(!starts_with(p, prompt_start())) by {
        if starts_with(p, prompt_start()) {
            assert(p.subrange(0, 5)[0] == p[0]);
        }
    }
    assert(p != "133;B"@);
    assert(p != "133;C"@);
    assert(starts_with(p, cwd_prefix()));
}

/// The 6x6x6 color cube of the 256-color palette in xterm's order: for
/// `16 <= i < 232` and `c = i - 16`, the red, green and blue channels are the
/// levels 0, 95, 135, 175, 215, 255 of `c / 36`, `c / 6 % 6` and `c % 6`.
pub proof fn lemma_color_cube(i: nat)
    requires
        16 <= i < 232,
    ensures
        ({
            let v = indexed_color_spec(i);
            let c = (i - 16) as nat;
            let levels = seq![0nat, 95, 135, 175, 215, 255];
            &&& v < 0x1000000
            &&& v / 65536 == levels[(c / 36) as int]
            &&& (v / 256) % 256 == levels[((c / 6) % 6) as int]
            &&& v % 256 == levels[(c % 6) as int]
        }),
{
    let c = (i - 16) as nat;
    let levels = seq![0nat, 95, 135, 175, 215, 255];
    assert(c / 36 < 6 && (c / 6) % 6 < 6 && c % 6 < 6) by (nonlinear_arith)
        requires
            c < 216,
    ;
    assert forall|k: nat| k < 6 implies #[trigger] cube_level(k) == levels[k as int] by {
        if k == 0 {
        } else if k == 1 {
        } else if k == 2 {
        } else if k == 3 {
        } else if k == 4 {
        } else {
        }
    }
    let r = cube_level(c / 36);
    let g = cube_level((c / 6) % 6);
    let b = cube_level(c % 6);
    assert(r <= 255 && g <= 255 && b <= 255);
    let v = r * 65536 + g * 256 + b;
    assert(indexed_color_spec(i) == v);
    assert(v < 0x1000000 && v / 65536 == r && (v / 256) % 256 == g && v % 256 == b)
        by (nonlinear_arith)
        requires
            r <= 255,
            g <= 255,
            b <= 255,
            v == r * 65536 + g * 256 + b,
    ;
}

} // verus!
