//! Color skins: the presets, user overrides and the mapping of UI tokens.
use crate::config::Config;
use crate::terminal::{default_ansi, default_ansi_array, indexed_color, indexed_color_spec};
use crate::text::{chars_equal, chars_of, str_eq};
use vstd::prelude::*;

verus! {

/// Colors of the `custom` skin given in the configuration, as `#RRGGBB` strings.
#[derive(Clone, Debug)]
pub struct ThemeOverrides {
    pub background: Option<String>,
    pub foreground: Option<String>,
    pub accent: Option<String>,
    pub panel: Option<String>,
    pub border: Option<String>,
    pub selection: Option<String>,
}

impl ThemeOverrides {
    /// No override at all.
    pub fn none() -> (o: Self)
        ensures
            o.background is None,
            o.foreground is None,
            o.accent is None,
            o.panel is None,
            o.border is None,
            o.selection is None,
    {
        ThemeOverrides {
            background: None,
            foreground: None,
            accent: None,
            panel: None,
            border: None,
            selection: None,
        }
    }
}

impl Default for ThemeOverrides {
    fn default() -> (o: Self)
        ensures
            o.background is None,
            o.foreground is None,
            o.accent is None,
            o.panel is None,
            o.border is None,
            o.selection is None,
    {
        Self::none()
    }
}

#[derive(Clone, Copy, Debug)]
pub struct Theme {
    pub background: u32,
    pub foreground: u32,
    pub accent: u32,
    pub panel: u32,
    pub raised: u32,
    pub border: u32,
    pub muted: u32,
    pub selected: u32,
    pub selection: u32,
    pub danger: u32,
    pub warning: u32,
    pub ansi: [u32; 16],
}

/// The identifiers of the skins, in the order the settings cycle through them.
pub open spec fn theme_ids() -> Seq<Seq<char>> {
    seq!["midnight"@, "catppuccin"@, "nord"@, "light"@, "custom"@]
}

/// The skins: identifier and display name.
pub open spec fn themes_spec() -> Seq<(&'static str, &'static str)> {
    seq![
        ("midnight", "Midnight"),
        ("catppuccin", "Catppuccin"),
        ("nord", "Nord"),
        ("light", "Light"),
        ("custom", "Custom"),
    ]
}

pub fn themes() -> (t: Vec<(&'static str, &'static str)>)
    ensures
        t@ == themes_spec(),
        t.len() == theme_ids().len(),
        forall|i: int| 0 <= i < t.len() ==> (#[trigger] t@[i]).0@ == theme_ids()[i],
{
    let t = vec![
        ("midnight", "Midnight"),
        ("catppuccin", "Catppuccin"),
        ("nord", "Nord"),
        ("light", "Light"),
        ("custom", "Custom"),
    ];
    assert(t@[0].0@ == theme_ids()[0]);
    t
}

/// Whether `name` identifies one of the skins.
pub fn is_known_theme(name: &str) -> (r: bool)
    ensures
        r == theme_ids().contains(name@),
{
    let list = themes();
    let mut i: usize = 0;
    while i < list.len()
        invariant
            i <= list.len(),
            list.len() == theme_ids().len(),
            forall|j: int| 0 <= j < list.len() ==> (#[trigger] list@[j]).0@ == theme_ids()[j],
            forall|j: int| 0 <= j < i ==> theme_ids()[j] != name@,
        decreases list.len() - i,
    {
        if str_eq(list[i].0, name) {
            assert(theme_ids()[i as int] == name@);
            return true;
        }
        i = i + 1;
    }
    assert forall|j: int| 0 <= j < theme_ids().len() implies theme_ids()[j] != name@ by {}
    false
}

pub open spec fn midnight_theme() -> Theme {
    Theme {
        background: 0x101419,
        foreground: 0xd8dee9,
        accent: 0x74d5bb,
        panel: 0x161c24,
        raised: 0x222d39,
        border: 0x303c4b,
        muted: 0x8c9bb0,
        selected: 0x233d35,
        selection: 0x344c5b,
        danger: 0xef7d8e,
        warning: 0xeac48b,
        ansi: [
            0x26303b,
            0xef7d8e,
            0x91d7a3,
            0xeac48b,
            0x82aaff,
            0xc3a6ff,
            0x7dd6df,
            0xd8dee9,
            0x657387,
            0xff96a7,
            0xb4edb5,
            0xffdfa8,
            0xaac5ff,
            0xdcc3ff,
            0xa0eef4,
            0xf2f5fa,
        ],
    }
}

pub open spec fn catppuccin_theme() -> Theme {
    Theme {
        background: 0x1e1e2e,
        foreground: 0xcdd6f4,
        accent: 0xcba6f7,
        panel: 0x181825,
        raised: 0x313244,
        border: 0x45475a,
        muted: 0xa6adc8,
        selected: 0x393149,
        selection: 0x585b70,
        danger: 0xf38ba8,
        warning: 0xf9e2af,
        ansi: [
            0x45475a,
            0xf38ba8,
            0xa6e3a1,
            0xf9e2af,
            0x89b4fa,
            0xf5c2e7,
            0x94e2d5,
            0xbac2de,
            0x585b70,
            0xf38ba8,
            0xa6e3a1,
            0xf9e2af,
            0x89b4fa,
            0xf5c2e7,
            0x94e2d5,
            0xa6adc8,
        ],
    }
}

pub open spec fn nord_theme() -> Theme {
    Theme {
        background: 0x2e3440,
        foreground: 0xe5e9f0,
        accent: 0x88c0d0,
        panel: 0x272d38,
        raised: 0x3b4252,
        border: 0x4c566a,
        muted: 0xa8b3c7,
        selected: 0x3b4e5d,
        selection: 0x4c566a,
        danger: 0xbf616a,
        warning: 0xebcb8b,
        ansi: [
            0x3b4252,
            0xbf616a,
            0xa3be8c,
            0xebcb8b,
            0x81a1c1,
            0xb48ead,
            0x88c0d0,
            0xe5e9f0,
            0x4c566a,
            0xbf616a,
            0xa3be8c,
            0xebcb8b,
            0x81a1c1,
            0xb48ead,
            0x8fbcbb,
            0xeceff4,
        ],
    }
}

pub open spec fn light_theme() -> Theme {
    Theme {
        background: 0xf8fafc,
        foreground: 0x202b3b,
        accent: 0x087f68,
        panel: 0xeef2f6,
        raised: 0xe1e8ef,
        border: 0xc4ceda,
        muted: 0x596b81,
        selected: 0xd5ede5,
        selection: 0xb7d8f3,
        danger: 0xad2245,
        warning: 0x986012,
        ansi: [
            0x202b3b,
            0xad2245,
            0x237b41,
            0x986012,
            0x275eab,
            0x824bb1,
            0x077986,
            0x596b81,
            0x66778a,
            0xcc3154,
            0x358b41,
            0xb67e15,
            0x3074bf,
            0x9b57c9,
            0x078998,
            0x1b2532,
        ],
    }
}

/// The preset named `name`; any other name gives the default skin.
pub open spec fn preset_theme(name: Seq<char>) -> Theme {
    if name == "catppuccin"@ {
        catppuccin_theme()
    } else if name == "nord"@ {
        nord_theme()
    } else if name == "light"@ {
        light_theme()
    } else {
        midnight_theme()
    }
}

pub open spec fn is_hex_digit(c: char) -> bool {
    ('0' <= c && c <= '9') || ('a' <= c && c <= 'f') || ('A' <= c && c <= 'F')
}

pub open spec fn hex_digit_value(c: char) -> nat {
    if '0' <= c && c <= '9' {
        ((c as u32) - 48) as nat
    } else if 'a' <= c && c <= 'f' {
        ((c as u32) - 87) as nat
    } else {
        ((c as u32) - 55) as nat
    }
}

/// The number written by hexadecimal digits `s`, most significant first.
pub open spec fn hex_number(s: Seq<char>) -> nat
    decreases s.len(),
{
    if s.len() == 0 {
        0
    } else {
        hex_number(s.drop_last()) * 16 + hex_digit_value(s.last())
    }
}

/// `v` without one leading `#`.
pub open spec fn strip_hash(v: Seq<char>) -> Seq<char> {
    if v.len() > 0 && v[0] == '#' {
        v.drop_first()
    } else {
        v
    }
}

/// `#RRGGBB` (or `RRGGBB`) read as a number; `None` for anything else.
pub open spec fn color_value(v: Seq<char>) -> Option<nat> {
    let d = strip_hash(v);
    if d.len() == 6 && (forall|i: int| 0 <= i < 6 ==> is_hex_digit(#[trigger] d[i])) {
        Some(hex_number(d))
    } else {
        None
    }
}

proof fn lemma_hex_number_bound(s: Seq<char>)
    requires
        forall|i: int| 0 <= i < s.len() ==> is_hex_digit(#[trigger] s[i]),
    ensures
        hex_number(s) < vstd::arithmetic::power::pow(16, s.len()),
    decreases s.len(),
{
    reveal(vstd::arithmetic::power::pow);
    if s.len() > 0 {
        assert forall|i: int| 0 <= i < s.drop_last().len() implies is_hex_digit(
            #[trigger] s.drop_last()[i],
        ) by {
            assert(s.drop_last()[i] == s[i]);
        }
        lemma_hex_number_bound(s.drop_last());
        assert(is_hex_digit(s[s.len() - 1]));
        assert(hex_digit_value(s.last()) < 16);
        let p = vstd::arithmetic::power::pow(16, (s.len() - 1) as nat);
        assert(hex_number(s.drop_last()) + 1 <= p);
        assert((hex_number(s.drop_last()) + 1) * 16 <= p * 16) by (nonlinear_arith)
            requires
                hex_number(s.drop_last()) + 1 <= p,
        ;
    }
}

/// The error of a color that is not `#RRGGBB`.
#[derive(Clone, Copy, Debug, PartialEq, Eq)]
pub enum ColorError {
    NotRgb,
}

impl ColorError {
    /// The explanation shown for the error.
    pub fn message(&self) -> (s: &'static str)
        ensures
            s@ == "Theme colors must be #RRGGBB"@,
    {
        "Theme colors must be #RRGGBB"
    }
}

/// Parse `#RRGGBB` (the `#` is optional) into `0xRRGGBB`.
pub fn parse_color(value: &str) -> (r: Result<u32, ColorError>)
    ensures
        match r {
            Ok(c) => color_value(value@) == Some(c as nat),
            Err(_) => color_value(value@) is None,
        },
{
    let all = chars_of(value);
    let start: usize = if all.len() > 0 && all[0] == '#' {
        1
    } else {
        0
    };
    let ghost d = strip_hash(value@);
    assert(d =~= all@.subrange(start as int, all.len() as int));
    if all.len() - start != 6 {
        return Err(ColorError::NotRgb);
    }
    let mut n: u32 = 0;
    let mut i: usize = 0;
    while i < 6
        invariant
            i <= 6,
            all.len() == start + 6,
            d == all@.subrange(start as int, all.len() as int),
            d == strip_hash(value@),
            forall|j: int| 0 <= j < i ==> is_hex_digit(#[trigger] d[j]),
            n as nat == hex_number(d.take(i as int)),
            n < 0x1000000,
        decreases 6 - i,
    {
        let c = all[start + i];
        let v: u32 = if '0' <= c && c <= '9' {
            (c as u32) - 48
        } else if 'a' <= c && c <= 'f' {
            (c as u32) - 87
        } else if 'A' <= c && c <= 'F' {
            (c as u32) - 55
        } else {
            assert(d[i as int] == c);
            assert(!is_hex_digit(d[i as int]));
            return Err(ColorError::NotRgb);
        };
        proof {
            assert(d.take(i + 1).drop_last() =~= d.take(i as int));
            assert(d[i as int] == c);
            assert forall|j: int| 0 <= j < d.take(i + 1).len() implies is_hex_digit(
                #[trigger] d.take(i + 1)[j],
            ) by {
                assert(d.take(i + 1)[j] == d[j]);
            }
            lemma_hex_number_bound(d.take(i + 1));
            vstd::arithmetic::power::lemma_pow_increases(16, (i + 1) as nat, 6);
            assert(vstd::arithmetic::power::pow(16, 6) == 0x1000000) by {
                vstd::arithmetic::power::lemma_pow_positive(16, 6);
                reveal_with_fuel(vstd::arithmetic::power::pow, 7);
            }
        }
        n = n * 16 + v;
        i = i + 1;
    }
    assert(d.take(6) =~= d);
    Ok(n)
}

/// `base`, or the color of `value` where it is a valid `#RRGGBB`.
pub open spec fn override_color(base: u32, value: Option<String>) -> u32 {
    match value {
        Some(v) => match color_value(v@) {
            Some(c) => c as u32,
            None => base,
        },
        None => base,
    }
}

/// The skin that a configuration selects. The overrides apply to the `custom` skin only.
pub open spec fn resolved_theme(name: Seq<char>, o: ThemeOverrides) -> Theme {
    let base = preset_theme(name);
    if name == "custom"@ {
        Theme {
            background: override_color(base.background, o.background),
            foreground: override_color(base.foreground, o.foreground),
            accent: override_color(base.accent, o.accent),
            panel: override_color(base.panel, o.panel),
            border: override_color(base.border, o.border),
            selection: override_color(base.selection, o.selection),
            ..base
        }
    } else {
        base
    }
}

fn apply_override(base: u32, value: &Option<String>) -> (r: u32)
    ensures
        r == override_color(base, *value),
{
    match value {
        Some(v) => match parse_color(v.as_str()) {
            Ok(c) => c,
            Err(_) => base,
        },
        None => base,
    }
}

/// The color of each UI token, by the skin.
pub open spec fn map_spec(t: Theme, token: u32) -> u32 {
    if token == 0x101419 {
        t.background
    } else if token == 0xd8dee9 || token == 0xdce5f0 || token == 0xf1f5fb || token == 0xbfe9dc {
        t.foreground
    } else if token == 0x74d5bb || token == 0x96b7ab {
        t.accent
    } else if token == 0x161c24 || token == 0x161d25 || token == 0x19202a || token == 0x131921 {
        t.panel
    } else if token == 0x1b232e || token == 0x202832 || token == 0x2a3340 || token == 0x222c38
        || token == 0x293340 {
        t.raised
    } else if token == 0x233631 || token == 0x25312f || token == 0x192322 || token == 0x263834
        || token == 0x2a413b {
        t.selected
    } else if token == 0x29313c || token == 0x3a4656 || token == 0x30413f {
        t.border
    } else if token == 0x3f3038 || token == 0x282329 || token == 0x3d2830 {
        t.raised
    } else if token == 0xef7d8e || token == 0xffb5c0 {
        t.danger
    } else if token == 0xeac48b {
        t.warning
    } else if token == 0x102720 {
        t.background
    } else {
        t.muted
    }
}

/// Terminal color `index` in the skin: the sixteen ANSI colors, 256 foreground,
/// 257 background, 258 accent, 259 to 266 the eight normal ANSI colors again
/// (for dim text); other indices follow the xterm palette.
pub open spec fn palette_spec(t: Theme, index: nat) -> nat {
    if index < 16 {
        t.ansi@[index as int] as nat
    } else if index == 256 {
        t.foreground as nat
    } else if index == 257 {
        t.background as nat
    } else if index == 258 {
        t.accent as nat
    } else if 259 <= index && index <= 266 {
        t.ansi@[index - 259] as nat
    } else {
        indexed_color_spec(index)
    }
}

impl Theme {
    pub fn midnight() -> (t: Theme)
        ensures
            t == midnight_theme(),
    {
        Theme {
            background: 0x101419,
            foreground: 0xd8dee9,
            accent: 0x74d5bb,
            panel: 0x161c24,
            raised: 0x222d39,
            border: 0x303c4b,
            muted: 0x8c9bb0,
            selected: 0x233d35,
            selection: 0x344c5b,
            danger: 0xef7d8e,
            warning: 0xeac48b,
            ansi: [
                0x26303b,
                0xef7d8e,
                0x91d7a3,
                0xeac48b,
                0x82aaff,
                0xc3a6ff,
                0x7dd6df,
                0xd8dee9,
                0x657387,
                0xff96a7,
                0xb4edb5,
                0xffdfa8,
                0xaac5ff,
                0xdcc3ff,
                0xa0eef4,
                0xf2f5fa,
            ],
        }
    }

    fn catppuccin() -> (t: Theme)
        ensures
            t == catppuccin_theme(),
    {
        Theme {
            background: 0x1e1e2e,
            foreground: 0xcdd6f4,
            accent: 0xcba6f7,
            panel: 0x181825,
            raised: 0x313244,
            border: 0x45475a,
            muted: 0xa6adc8,
            selected: 0x393149,
            selection: 0x585b70,
            danger: 0xf38ba8,
            warning: 0xf9e2af,
            ansi: [
                0x45475a,
                0xf38ba8,
                0xa6e3a1,
                0xf9e2af,
                0x89b4fa,
                0xf5c2e7,
                0x94e2d5,
                0xbac2de,
                0x585b70,
                0xf38ba8,
                0xa6e3a1,
                0xf9e2af,
                0x89b4fa,
                0xf5c2e7,
                0x94e2d5,
                0xa6adc8,
            ],
        }
    }

    fn nord() -> (t: Theme)
        ensures
            t == nord_theme(),
    {
        Theme {
            background: 0x2e3440,
            foreground: 0xe5e9f0,
            accent: 0x88c0d0,
            panel: 0x272d38,
            raised: 0x3b4252,
            border: 0x4c566a,
            muted: 0xa8b3c7,
            selected: 0x3b4e5d,
            selection: 0x4c566a,
            danger: 0xbf616a,
            warning: 0xebcb8b,
            ansi: [
                0x3b4252,
                0xbf616a,
                0xa3be8c,
                0xebcb8b,
                0x81a1c1,
                0xb48ead,
                0x88c0d0,
                0xe5e9f0,
                0x4c566a,
                0xbf616a,
                0xa3be8c,
                0xebcb8b,
                0x81a1c1,
                0xb48ead,
                0x8fbcbb,
                0xeceff4,
            ],
        }
    }

    fn light() -> (t: Theme)
        ensures
            t == light_theme(),
    {
        Theme {
            background: 0xf8fafc,
            foreground: 0x202b3b,
            accent: 0x087f68,
            panel: 0xeef2f6,
            raised: 0xe1e8ef,
            border: 0xc4ceda,
            muted: 0x596b81,
            selected: 0xd5ede5,
            selection: 0xb7d8f3,
            danger: 0xad2245,
            warning: 0x986012,
            ansi: [
                0x202b3b,
                0xad2245,
                0x237b41,
                0x986012,
                0x275eab,
                0x824bb1,
                0x077986,
                0x596b81,
                0x66778a,
                0xcc3154,
                0x358b41,
                0xb67e15,
                0x3074bf,
                0x9b57c9,
                0x078998,
                0x1b2532,
            ],
        }
    }

    /// The skin that the configuration selects, with the `custom` overrides applied.
    pub fn resolve(config: &Config) -> (t: Theme)
        ensures
            t == resolved_theme(config.theme@, config.custom_theme),
    {
        let name = chars_of(config.theme.as_str());
        let mut theme = if chars_equal(&name, "catppuccin") {
            Self::catppuccin()
        } else if chars_equal(&name, "nord") {
            Self::nord()
        } else if chars_equal(&name, "light") {
            Self::light()
        } else {
            Self::midnight()
        };
        if chars_equal(&name, "custom") {
            let c = &config.custom_theme;
            theme.background = apply_override(theme.background, &c.background);
            theme.foreground = apply_override(theme.foreground, &c.foreground);
            theme.accent = apply_override(theme.accent, &c.accent);
            theme.panel = apply_override(theme.panel, &c.panel);
            theme.border = apply_override(theme.border, &c.border);
            theme.selection = apply_override(theme.selection, &c.selection);
        }
        theme
    }

    /// Map the UI's semantic color tokens to the selected skin. ANSI output is
    /// resolved separately so explicit colors from applications remain intact.
    pub fn map(self, token: u32) -> (c: u32)
        ensures
            c == map_spec(self, token),
    {
        if token == 0x101419 {
            self.background
        } else if token == 0xd8dee9 || token == 0xdce5f0 || token == 0xf1f5fb || token
            == 0xbfe9dc {
            self.foreground
        } else if token == 0x74d5bb || token == 0x96b7ab {
            self.accent
        } else if token == 0x161c24 || token == 0x161d25 || token == 0x19202a || token
            == 0x131921 {
            self.panel
        } else if token == 0x1b232e || token == 0x202832 || token == 0x2a3340 || token
            == 0x222c38 || token == 0x293340 {
            self.raised
        } else if token == 0x233631 || token == 0x25312f || token == 0x192322 || token
            == 0x263834 || token == 0x2a413b {
            self.selected
        } else if token == 0x29313c || token == 0x3a4656 || token == 0x30413f {
            self.border
        } else if token == 0x3f3038 || token == 0x282329 || token == 0x3d2830 {
            self.raised
        } else if token == 0xef7d8e || token == 0xffb5c0 {
            self.danger
        } else if token == 0xeac48b {
            self.warning
        } else if token == 0x102720 {
            self.background
        } else {
            self.muted
        }
    }

    /// The color of terminal palette entry `index` in this skin.
    pub fn palette(self, index: usize) -> (c: u32)
        ensures
            c as nat == palette_spec(self, index as nat),
    {
        if index < 16 {
            self.ansi[index]
        } else if index == 256 {
            self.foreground
        } else if index == 257 {
            self.background
        } else if index == 258 {
            self.accent
        } else if 259 <= index && index <= 266 {
            self.ansi[index - 259]
        } else {
            indexed_color(index)
        }
    }
}

impl Default for Theme {
    fn default() -> (t: Theme)
        ensures
            t == midnight_theme(),
    {
        Self::midnight()
    }
}

/// Overrides only change the `custom` skin; without overrides it is the default skin.
pub proof fn lemma_overrides_only_for_custom(name: Seq<char>, a: ThemeOverrides, b: ThemeOverrides)
    ensures
        name != "custom"@ ==> resolved_theme(name, a) == resolved_theme(name, b),
        name != "custom"@ ==> resolved_theme(name, a) == preset_theme(name),
        (a.background is None && a.foreground is None && a.accent is None && a.panel is None
            && a.border is None && a.selection is None) ==> resolved_theme(name, a)
            == preset_theme(name),
{
}

/// The lower-case hexadecimal digit of `d`, below 16.
pub open spec fn hex_char(d: nat) -> char {
    if d < 10 {
        (48 + d) as char
    } else {
        (87 + d) as char
    }
}

/// The last `k` hexadecimal digits of `n`, most significant first, as
/// `format!("{:0k$x}", n)` writes a number below `16^k`.
pub open spec fn hex_digits(n: nat, k: nat) -> Seq<char>
    decreases k,
{
    if k == 0 {
        Seq::<char>::empty()
    } else {
        hex_digits(n / 16, (k - 1) as nat).push(hex_char(n % 16))
    }
}

proof fn lemma_hex_digits(n: nat, k: nat)
    requires
        n < vstd::arithmetic::power::pow(16, k),
    ensures
        hex_digits(n, k).len() == k,
        forall|i: int| 0 <= i < k ==> is_hex_digit(#[trigger] hex_digits(n, k)[i]),
        hex_number(hex_digits(n, k)) == n,
    decreases k,
{
    reveal(vstd::arithmetic::power::pow);
    if k > 0 {
        let p = vstd::arithmetic::power::pow(16, (k - 1) as nat);
        assert(n / 16 < p) by (nonlinear_arith)
            requires
                n < 16 * p,
        ;
        assert(n == (n / 16) * 16 + n % 16) by (nonlinear_arith);
        assert(n % 16 < 16) by (nonlinear_arith);
        lemma_hex_digits(n / 16, (k - 1) as nat);
        let s = hex_digits(n / 16, (k - 1) as nat);
        let d = n % 16;
        let c = hex_char(d);
        assert(is_hex_digit(c) && hex_digit_value(c) == d) by {
            if d < 10 {
                assert(((48 + d) as char) as u32 == 48 + d);
            } else {
                assert(((87 + d) as char) as u32 == 87 + d);
            }
        }
        assert(s.push(c).drop_last() =~= s);
        assert forall|i: int| 0 <= i < k implies is_hex_digit(#[trigger] hex_digits(n, k)[i]) by {
            if i < k - 1 {
                assert(hex_digits(n, k)[i] == s[i]);
            }
        }
    }
}

/// A color written as `#rrggbb`, or without the `#`, reads back as itself:
/// for every 24-bit `n`, its six lower-case hexadecimal digits parse to `n`.
pub proof fn lemma_color_round_trip(n: nat)
    requires
        n < 0x1000000,
    ensures
        color_value(seq!['#'] + hex_digits(n, 6)) == Some(n),
        color_value(hex_digits(n, 6)) == Some(n),
{
    assert(vstd::arithmetic::power::pow(16, 6) == 0x1000000) by {
        reveal_with_fuel(vstd::arithmetic::power::pow, 7);
    }
    lemma_hex_digits(n, 6);
    let d = hex_digits(n, 6);
    assert((seq!['#'] + d).drop_first() =~= d);
    assert(d[0] != '#');
}

/// Whether an override holds a color that parses to `c`.
pub open spec fn overrides_with(value: Option<String>, c: nat) -> bool {
    value matches Some(v) && color_value(v@) == Some(c)
}

/// With the `custom` skin, each override that holds a valid `#RRGGBB` color
/// gives that field of the resolved skin its parsed color; a field without a
/// valid override keeps the default skin's color.
pub proof fn lemma_custom_overrides_apply(
    o: ThemeOverrides,
    background: nat,
    foreground: nat,
    accent: nat,
    panel: nat,
    border: nat,
    selection: nat,
)
    ensures
        overrides_with(o.background, background) ==> resolved_theme("custom"@, o).background
            == background,
        overrides_with(o.foreground, foreground) ==> resolved_theme("custom"@, o).foreground
            == foreground,
        overrides_with(o.accent, accent) ==> resolved_theme("custom"@, o).accent == accent,
        overrides_with(o.panel, panel) ==> resolved_theme("custom"@, o).panel == panel,
        overrides_with(o.border, border) ==> resolved_theme("custom"@, o).border == border,
        overrides_with(o.selection, selection) ==> resolved_theme("custom"@, o).selection
            == selection,
        o.foreground is None ==> resolved_theme("custom"@, o).foreground == midnight_theme().foreground,
        o.background is None ==> resolved_theme("custom"@, o).background == midnight_theme().background,
{
    reveal_strlit("custom");
    reveal_strlit("catppuccin");
    reveal_strlit("nord");
    reveal_strlit("light");
    assert("custom"@.len() == 6 && "catppuccin"@.len() == 10 && "nord"@.len() == 4
        && "light"@.len() == 5);
    let vals = seq![background, foreground, accent, panel, border, selection];
    let fields = seq![o.background, o.foreground, o.accent, o.panel, o.border, o.selection];
    assert forall|k: int| 0 <= k < 6 && overrides_with(#[trigger] fields[k], vals[k]) implies vals[k]
        < 0x1000000 by {
        let v = fields[k]->0;
        lemma_color_value_bound(v@);
    }
    assert(fields[0] == o.background && vals[0] == background);
    assert(fields[1] == o.foreground && vals[1] == foreground);
    assert(fields[2] == o.accent && vals[2] == accent);
    assert(fields[3] == o.panel && vals[3] == panel);
    assert(fields[4] == o.border && vals[4] == border);
    assert(fields[5] == o.selection && vals[5] == selection);
}

/// A color is a 24-bit number.
pub proof fn lemma_color_value_bound(v: Seq<char>)
    ensures
        color_value(v) matches Some(c) ==> c < 0x1000000,
{
    let d = strip_hash(v);
    if color_value(v) is Some {
        lemma_hex_number_bound(d);
        assert(vstd::arithmetic::power::pow(16, 6) == 0x1000000) by {
            reveal_with_fuel(vstd::arithmetic::power::pow, 7);
        }
    }
}

/// The default skin's sixteen ANSI colors are the terminal's base palette.
pub proof fn lemma_default_skin_matches_palette(i: int)
    requires
        0 <= i < 16,
    ensures
        midnight_theme().ansi@[i] == default_ansi()[i],
{
    assert(midnight_theme().ansi@ =~= default_ansi());
}

} // verus!
