//! The user's configuration, its defaults and the checks applied when it is loaded.
use crate::text::chars_of;
use crate::theme::{color_value, is_known_theme, parse_color, theme_ids, ThemeOverrides};
use vstd::prelude::*;

verus! {

broadcast use vstd::string::group_string_axioms;

/// A shell profile declared in the configuration.
#[derive(Clone, Debug)]
pub struct CustomShell {
    pub id: String,
    pub name: String,
    pub program: String,
    pub args: Vec<String>,
    pub env: Vec<(String, String)>,
}

/// The configuration, apart from the font size, which the desktop layer keeps.
#[derive(Clone, Debug)]
pub struct Config {
    pub language: String,
    pub theme: String,
    pub custom_theme: ThemeOverrides,
    pub font_family: String,
    pub scrollback: usize,
    pub default_shell: String,
    pub bash_path: Option<String>,
    pub working_directory: Option<String>,
    pub suggestions: bool,
    pub sidebar: bool,
    pub env: Vec<(String, String)>,
    pub shells: Vec<CustomShell>,
}

/// Why a configuration is refused.
#[derive(Clone, Debug)]
pub enum ConfigError {
    /// The theme is not one of the skins; the theme is given.
    UnknownTheme(String),
    /// A color of the custom skin is not `#RRGGBB`.
    InvalidColor,
    /// A shell profile lacks an id or a name.
    IncompleteShell,
    /// An environment variable has an empty name, a name with `=` or NUL, or a value with NUL.
    InvalidEnvironment,
}

/// Unicode's White_Space property, which `char::is_whitespace` follows.
pub open spec fn is_whitespace(c: char) -> bool {
    let u = c as u32;
    (0x9 <= u && u <= 0xd) || u == 0x20 || u == 0x85 || u == 0xa0 || u == 0x1680 || (0x2000 <= u
        && u <= 0x200a) || u == 0x2028 || u == 0x2029 || u == 0x202f || u == 0x205f || u == 0x3000
}

/// Whether `s` is empty once trimmed: only whitespace.
pub open spec fn is_blank(s: Seq<char>) -> bool {
    forall|i: int| 0 <= i < s.len() ==> is_whitespace(#[trigger] s[i])
}

/// A valid environment variable: a name that is not empty and has no `=` or
/// NUL, and a value without NUL.
pub open spec fn valid_env_entry(name: Seq<char>, value: Seq<char>) -> bool {
    name.len() > 0 && !name.contains('=') && !name.contains('\0') && !value.contains('\0')
}

pub open spec fn valid_env(env: Seq<(String, String)>) -> bool {
    forall|i: int| 0 <= i < env.len() ==> valid_env_entry((#[trigger] env[i]).0@, env[i].1@)
}

pub open spec fn color_ok(v: Option<String>) -> bool {
    match v {
        Some(s) => color_value(s@) is Some,
        None => true,
    }
}

pub open spec fn colors_ok(o: ThemeOverrides) -> bool {
    color_ok(o.background) && color_ok(o.foreground) && color_ok(o.accent) && color_ok(o.panel)
        && color_ok(o.border) && color_ok(o.selection)
}

pub open spec fn shells_complete(shells: Seq<CustomShell>) -> bool {
    forall|i: int|
        0 <= i < shells.len() ==> !is_blank((#[trigger] shells[i]).id@) && !is_blank(
            shells[i].name@,
        )
}

pub open spec fn shells_env_valid(shells: Seq<CustomShell>) -> bool {
    forall|i: int| 0 <= i < shells.len() ==> valid_env((#[trigger] shells[i]).env@)
}

/// The first check that a configuration fails, in the order they are made,
/// or `None` for a configuration that is accepted.
pub open spec fn config_fault(c: Config) -> Option<ConfigError> {
    if !theme_ids().contains(c.theme@) {
        Some(ConfigError::UnknownTheme(c.theme))
    } else if !colors_ok(c.custom_theme) {
        Some(ConfigError::InvalidColor)
    } else if !shells_complete(c.shells@) {
        Some(ConfigError::IncompleteShell)
    } else if !valid_env(c.env@) || !shells_env_valid(c.shells@) {
        Some(ConfigError::InvalidEnvironment)
    } else {
        None
    }
}

/// Scrollback is kept between 100 and 100,000 lines.
pub open spec fn clamped_scrollback(n: usize) -> usize {
    if n < 100 {
        100
    } else if n > 100_000 {
        100_000
    } else {
        n
    }
}

/// A configuration that is accepted is accepted again, unchanged.
pub proof fn lemma_validation_settles(c: Config)
    requires
        config_fault(c) is None,
    ensures
        config_fault(Config { scrollback: clamped_scrollback(c.scrollback), ..c }) is None,
        clamped_scrollback(clamped_scrollback(c.scrollback)) == clamped_scrollback(c.scrollback),
        100 <= clamped_scrollback(c.scrollback) <= 100_000,
{
}

fn color_is_valid(v: &Option<String>) -> (r: bool)
    ensures
        r == color_ok(*v),
{
    match v {
        Some(s) => parse_color(s.as_str()).is_ok(),
        None => true,
    }
}

pub(crate) fn is_whitespace_char(c: char) -> (r: bool)
    ensures
        r == is_whitespace(c),
{
    let u = c as u32;
    (0x9 <= u && u <= 0xd) || u == 0x20 || u == 0x85 || u == 0xa0 || u == 0x1680 || (0x2000 <= u
        && u <= 0x200a) || u == 0x2028 || u == 0x2029 || u == 0x202f || u == 0x205f || u == 0x3000
}

/// Whether `s` holds only whitespace, so that it is empty once trimmed.
pub fn blank(s: &str) -> (r: bool)
    ensures
        r == is_blank(s@),
{
    let chars = chars_of(s);
    let mut i: usize = 0;
    while i < chars.len()
        invariant
            i <= chars.len(),
            chars@ == s@,
            forall|k: int| 0 <= k < i ==> is_whitespace(#[trigger] chars@[k]),
        decreases chars.len() - i,
    {
        if !is_whitespace_char(chars[i]) {
            return false;
        }
        i = i + 1;
    }
    true
}

fn contains_char(s: &Vec<char>, c: char) -> (r: bool)
    ensures
        r == s@.contains(c),
{
    let mut i: usize = 0;
    while i < s.len()
        invariant
            i <= s.len(),
            forall|k: int| 0 <= k < i ==> s@[k] != c,
        decreases s.len() - i,
    {
        if s[i] == c {
            assert(s@[i as int] == c);
            return true;
        }
        i = i + 1;
    }
    false
}

/// Whether an environment variable is valid.
pub fn env_entry_is_valid(name: &str, value: &str) -> (r: bool)
    ensures
        r == valid_env_entry(name@, value@),
{
    let n = chars_of(name);
    let v = chars_of(value);
    n.len() > 0 && !contains_char(&n, '=') && !contains_char(&n, '\0') && !contains_char(&v, '\0')
}

fn env_is_valid(env: &Vec<(String, String)>) -> (r: bool)
    ensures
        r == valid_env(env@),
{
    let mut i: usize = 0;
    while i < env.len()
        invariant
            i <= env.len(),
            forall|k: int| 0 <= k < i ==> valid_env_entry((#[trigger] env@[k]).0@, env@[k].1@),
        decreases env.len() - i,
    {
        if !env_entry_is_valid(env[i].0.as_str(), env[i].1.as_str()) {
            return false;
        }
        i = i + 1;
    }
    true
}

impl Config {
    /// The configuration used where there is no configuration file.
    pub fn default_config() -> (c: Config)
        ensures
            c.language@ == "system"@,
            c.theme@ == "midnight"@,
            c.custom_theme.background is None,
            c.custom_theme.foreground is None,
            c.custom_theme.accent is None,
            c.custom_theme.panel is None,
            c.custom_theme.border is None,
            c.custom_theme.selection is None,
            c.font_family@ == "Cascadia Mono"@,
            c.scrollback == 10_000,
            c.default_shell@ == "bash"@,
            c.bash_path is None,
            c.working_directory is None,
            c.suggestions,
            c.sidebar,
            c.env@.len() == 0,
            c.shells@.len() == 0,
    {
        Config {
            language: "system".to_owned(),
            theme: "midnight".to_owned(),
            custom_theme: ThemeOverrides::none(),
            font_family: "Cascadia Mono".to_owned(),
            scrollback: 10_000,
            default_shell: "bash".to_owned(),
            bash_path: None,
            working_directory: None,
            suggestions: true,
            sidebar: true,
            env: Vec::new(),
            shells: Vec::new(),
        }
    }

    /// Check a configuration read from the configuration file and bring its
    /// scrollback into range: the first failed check is reported.
    pub fn validate(self) -> (r: Result<Config, ConfigError>)
        ensures
            match r {
                Ok(c) => config_fault(self) is None && c == (Config {
                    scrollback: clamped_scrollback(self.scrollback),
                    ..self
                }),
                Err(e) => config_fault(self) == Some(e),
            },
    {
        let mut config = self;
        config.scrollback = if config.scrollback < 100 {
            100
        } else if config.scrollback > 100_000 {
            100_000
        } else {
            config.scrollback
        };
        if !is_known_theme(config.theme.as_str()) {
            return Err(ConfigError::UnknownTheme(config.theme));
        }
        let c = &config.custom_theme;
        if !(color_is_valid(&c.background) && color_is_valid(&c.foreground) && color_is_valid(
            &c.accent,
        ) && color_is_valid(&c.panel) && color_is_valid(&c.border) && color_is_valid(
            &c.selection,
        )) {
            return Err(ConfigError::InvalidColor);
        }
        let mut i: usize = 0;
        while i < config.shells.len()
            invariant
                i <= config.shells.len(),
                config == (Config { scrollback: clamped_scrollback(self.scrollback), ..self }),
                theme_ids().contains(self.theme@),
                colors_ok(self.custom_theme),
                forall|k: int|
                    0 <= k < i ==> !is_blank((#[trigger] config.shells@[k]).id@) && !is_blank(
                        config.shells@[k].name@,
                    ),
            decreases config.shells.len() - i,
        {
            if blank(config.shells[i].id.as_str()) || blank(config.shells[i].name.as_str()) {
                return Err(ConfigError::IncompleteShell);
            }
            i = i + 1;
        }
        if !env_is_valid(&config.env) {
            return Err(ConfigError::InvalidEnvironment);
        }
        let mut j: usize = 0;
        while j < config.shells.len()
            invariant
                j <= config.shells.len(),
                config == (Config { scrollback: clamped_scrollback(self.scrollback), ..self }),
                theme_ids().contains(self.theme@),
                colors_ok(self.custom_theme),
                shells_complete(self.shells@),
                valid_env(self.env@),
                forall|k: int| 0 <= k < j ==> valid_env((#[trigger] config.shells@[k]).env@),
            decreases config.shells.len() - j,
        {
            if !env_is_valid(&config.shells[j].env) {
                return Err(ConfigError::InvalidEnvironment);
            }
            j = j + 1;
        }
        Ok(config)
    }
}

} // verus!
