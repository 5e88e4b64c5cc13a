//! Settings, and the environment variables that override them.
use vstd::prelude::*;

use crate::engine::InputMethod;
use crate::paths;
use crate::strings;
use crate::words;

verus! {

/// Input method as configured.
#[derive(Debug, Clone, Copy, PartialEq, Eq, Structural)]
pub enum MethodConfig {
    Telex,
    Vni,
    Viqr,
}

impl Default for MethodConfig {
    fn default() -> (m: Self)
        ensures
            m == MethodConfig::Telex,
    {
        MethodConfig::Telex
    }
}

/// The engine's input method for a configured one.
pub open spec fn engine_method(m: MethodConfig) -> InputMethod {
    match m {
        MethodConfig::Telex => InputMethod::Telex,
        MethodConfig::Vni => InputMethod::Vni,
        MethodConfig::Viqr => InputMethod::Viqr,
    }
}

impl MethodConfig {
    pub fn to_engine(&self) -> (m: InputMethod)
        ensures
            m == engine_method(*self),
    {
        match self {
            MethodConfig::Telex => InputMethod::Telex,
            MethodConfig::Vni => InputMethod::Vni,
            MethodConfig::Viqr => InputMethod::Viqr,
        }
    }
}

/// Settings of the daemon.
#[derive(Debug)]
pub struct Config {
    pub method: MethodConfig,
    /// Speak the Wayland input-method protocols.
    pub enable_wayland: bool,
    /// Least level that is logged, but for the modules in `log_modules`.
    pub log_level: String,
    pub log_path: String,
    /// Logging directives for single modules, such as `daklak=debug`.
    pub log_modules: Vec<String>,
    /// Grab all physical keyboards at startup.
    pub enable_evdev_grab: bool,
    /// `[`, `]`, `{` and `}` type `ơ`, `ư`, `Ơ` and `Ư` in Telex.
    pub bracket_shortcuts: bool,
    /// Register as an IBus engine.
    pub enable_ibus: bool,
    /// This process was asked to be an IBus engine.
    pub ibus_requested: bool,
    /// Place tones the modern way (`oà`) rather than the legacy way (`òa`).
    pub modern_style: bool,
    /// Names of the hooks around a keyboard grab, in order.
    pub evdev_grab_hooks: Vec<String>,
    /// Where the settings came from.
    pub config_path: Option<String>,
}

/// [`Config`] with its texts as characters.
pub struct Settings {
    pub method: MethodConfig,
    pub enable_wayland: bool,
    pub log_level: Seq<char>,
    pub log_path: Seq<char>,
    pub log_modules: Seq<Seq<char>>,
    pub enable_evdev_grab: bool,
    pub bracket_shortcuts: bool,
    pub enable_ibus: bool,
    pub ibus_requested: bool,
    pub modern_style: bool,
    pub evdev_grab_hooks: Seq<Seq<char>>,
    pub config_path: Option<Seq<char>>,
}

/// The characters of an optional text.
pub open spec fn opt_text(s: Option<String>) -> Option<Seq<char>> {
    match s {
        Some(s) => Some(s@),
        None => None,
    }
}

impl View for Config {
    type V = Settings;

    open spec fn view(&self) -> Settings {
        Settings {
            method: self.method,
            enable_wayland: self.enable_wayland,
            log_level: self.log_level@,
            log_path: self.log_path@,
            log_modules: strings::texts(self.log_modules@),
            enable_evdev_grab: self.enable_evdev_grab,
            bracket_shortcuts: self.bracket_shortcuts,
            enable_ibus: self.enable_ibus,
            ibus_requested: self.ibus_requested,
            modern_style: self.modern_style,
            evdev_grab_hooks: strings::texts(self.evdev_grab_hooks@),
            config_path: opt_text(self.config_path),
        }
    }
}

/// The settings that hold when nothing says otherwise.
pub open spec fn default_settings() -> Settings {
    Settings {
        method: MethodConfig::Telex,
        enable_wayland: true,
        log_level: "error"@,
        log_path: "/dev/stdout"@,
        log_modules: Seq::empty(),
        enable_evdev_grab: false,
        bracket_shortcuts: false,
        enable_ibus: false,
        ibus_requested: false,
        modern_style: true,
        evdev_grab_hooks: Seq::empty(),
        config_path: None,
    }
}

pub fn default_enable_wayland() -> (b: bool)
    ensures
        b,
{
    true
}

pub fn default_modern_style() -> (b: bool)
    ensures
        b,
{
    true
}

pub fn default_log_level() -> (s: String)
    ensures
        s@ == "error"@,
{
    "error".to_owned()
}

pub fn default_log_path() -> (s: String)
    ensures
        s@ == "/dev/stdout"@,
{
    "/dev/stdout".to_owned()
}

impl Default for Config {
    fn default() -> (c: Self)
        ensures
            c@ == default_settings(),
    {
        let c = Config {
            method: MethodConfig::Telex,
            enable_wayland: default_enable_wayland(),
            log_level: default_log_level(),
            log_path: default_log_path(),
            log_modules: Vec::new(),
            enable_evdev_grab: false,
            bracket_shortcuts: false,
            enable_ibus: false,
            ibus_requested: false,
            modern_style: default_modern_style(),
            evdev_grab_hooks: Vec::new(),
            config_path: None,
        };
        assert(c@.log_modules =~= Seq::<Seq<char>>::empty());
        assert(c@.evdev_grab_hooks =~= Seq::<Seq<char>>::empty());
        c
    }
}

/// The environment variables that override settings; `None` for one that is not
/// set.
pub struct EnvOverrides {
    pub method: Option<String>,
    pub enable_wayland: Option<String>,
    pub log_level: Option<String>,
    pub log_path: Option<String>,
    pub log_modules: Option<String>,
    pub enable_evdev_grab: Option<String>,
    pub bracket_shortcuts: Option<String>,
    pub modern_style: Option<String>,
    pub enable_ibus: Option<String>,
}

/// A value that switches something on.
pub open spec fn truthy(v: Seq<char>) -> bool {
    let t = strings::lowered(strings::trimmed(v));
    t == "1"@ || t == "true"@ || t == "yes"@ || t == "on"@
}

/// The input method that a value names; Telex for any other value.
pub open spec fn named_method(v: Seq<char>) -> MethodConfig {
    let t = strings::lowered(v);
    if t == "vni"@ {
        MethodConfig::Vni
    } else if t == "viqr"@ {
        MethodConfig::Viqr
    } else {
        MethodConfig::Telex
    }
}

/// The parts of a comma-separated list, trimmed, without empty ones.
pub open spec fn directive_list(v: Seq<char>) -> Seq<Seq<char>> {
    strings::trimmed_parts(strings::split(v, ','))
}

/// A switch under an optional override.
pub open spec fn switched(current: bool, v: Option<String>) -> bool {
    match v {
        Some(v) => truthy(v@),
        None => current,
    }
}

/// Settings under the overrides.
pub open spec fn overridden(s: Settings, env: EnvOverrides) -> Settings {
    Settings {
        method: match env.method {
            Some(v) => named_method(v@),
            None => s.method,
        },
        enable_wayland: switched(s.enable_wayland, env.enable_wayland),
        log_level: match env.log_level {
            Some(v) => v@,
            None => s.log_level,
        },
        log_path: match env.log_path {
            Some(v) => v@,
            None => s.log_path,
        },
        log_modules: match env.log_modules {
            Some(v) => directive_list(v@),
            None => s.log_modules,
        },
        enable_evdev_grab: switched(s.enable_evdev_grab, env.enable_evdev_grab),
        bracket_shortcuts: switched(s.bracket_shortcuts, env.bracket_shortcuts),
        modern_style: switched(s.modern_style, env.modern_style),
        enable_ibus: switched(s.enable_ibus, env.enable_ibus),
        ..s
    }
}

/// Whether a value switches something on.
pub fn is_truthy(v: &str) -> (b: bool)
    ensures
        b == truthy(v@),
{
    let t = strings::to_lower(strings::trim(v));
    let t = t.as_str();
    *t == *"1" || *t == *"true" || *t == *"yes" || *t == *"on"
}

fn method_named(v: &str) -> (m: MethodConfig)
    ensures
        m == named_method(v@),
{
    let t = strings::to_lower(v);
    if *t.as_str() == *"vni" {
        MethodConfig::Vni
    } else if *t.as_str() == *"viqr" {
        MethodConfig::Viqr
    } else {
        MethodConfig::Telex
    }
}

/// The parts of a comma-separated list of logging directives.
pub fn parse_directive_list(raw: &str) -> (v: Vec<String>)
    ensures
        strings::texts(v@) == directive_list(raw@),
{
    let parts = strings::split_at_char(raw, ',');
    strings::trim_parts(&parts)
}

fn switch(current: bool, v: &Option<String>) -> (b: bool)
    ensures
        b == switched(current, *v),
{
    match v {
        Some(v) => is_truthy(v.as_str()),
        None => current,
    }
}

fn text_or(current: String, v: &Option<String>) -> (s: String)
    ensures
        s@ == match *v {
            Some(v) => v@,
            None => current@,
        },
{
    match v {
        Some(v) => v.as_str().to_owned(),
        None => current,
    }
}

/// Why the settings file did not give settings.
#[derive(Debug, Clone, Copy, PartialEq, Eq, Structural)]
pub enum LoadFault {
    /// It could not be read.
    Unreadable,
    /// Its text is no settings file.
    Invalid,
}

/// The complaint about a settings file.
pub open spec fn load_failure(f: LoadFault, path: Seq<char>) -> Seq<char> {
    match f {
        LoadFault::Unreadable => "failed to read config file "@ + path,
        LoadFault::Invalid => "failed to parse config file "@ + path,
    }
}

/// The complaint about a settings file.
pub fn load_failure_text(f: LoadFault, path: &str) -> (s: String)
    ensures
        s@ == load_failure(f, path@),
{
    let mut s = match f {
        LoadFault::Unreadable => "failed to read config file ",
        LoadFault::Invalid => "failed to parse config file ",
    }.to_owned();
    s.push_str(path);
    s
}

impl Config {
    /// These settings under the overrides.
    pub fn with_overrides(self, env: &EnvOverrides) -> (c: Config)
        ensures
            c@ == overridden(self@, *env),
    {
        Config {
            method: match &env.method {
                Some(v) => method_named(v.as_str()),
                None => self.method,
            },
            enable_wayland: switch(self.enable_wayland, &env.enable_wayland),
            log_level: text_or(self.log_level, &env.log_level),
            log_path: text_or(self.log_path, &env.log_path),
            log_modules: match &env.log_modules {
                Some(v) => parse_directive_list(v.as_str()),
                None => self.log_modules,
            },
            enable_evdev_grab: switch(self.enable_evdev_grab, &env.enable_evdev_grab),
            bracket_shortcuts: switch(self.bracket_shortcuts, &env.bracket_shortcuts),
            enable_ibus: switch(self.enable_ibus, &env.enable_ibus),
            ibus_requested: self.ibus_requested,
            modern_style: switch(self.modern_style, &env.modern_style),
            evdev_grab_hooks: self.evdev_grab_hooks,
            config_path: self.config_path,
        }
    }

    /// The settings of the default file, as far as it could be read, under the
    /// overrides.
    pub fn load(file: Option<Config>, env: &EnvOverrides) -> (c: Config)
        ensures
            c@ == overridden(
                match file {
                    Some(f) => f@,
                    None => default_settings(),
                },
                *env,
            ),
    {
        match file {
            Some(c) => c.with_overrides(env),
            None => Config::default().with_overrides(env),
        }
    }

    /// The settings of a file that was asked for by `path`, under the overrides.
    /// A file that could not be read or parsed is an error, whose text says which of
    /// the two it was; without a path the default file counts.
    pub fn load_from(
        path: Option<String>,
        parsed: Result<Config, LoadFault>,
        env: &EnvOverrides,
    ) -> (r: Result<Config, String>)
        ensures
            match (path, parsed) {
                (Some(p), Ok(f)) => r is Ok && r->Ok_0@ == overridden(
                    Settings {
                        config_path: match f@.config_path {
                            Some(q) => Some(q),
                            None => Some(p@),
                        },
                        ..f@
                    },
                    *env,
                ),
                (Some(p), Err(f)) => r is Err && r->Err_0@ == load_failure(f, p@),
                (None, Ok(f)) => r is Ok && r->Ok_0@ == overridden(f@, *env),
                (None, Err(_)) => r is Ok && r->Ok_0@ == overridden(default_settings(), *env),
            },
    {
        match (path, parsed) {
            (Some(p), Ok(mut c)) => {
                if c.config_path.is_none() {
                    c.config_path = Some(p);
                }
                Ok(c.with_overrides(env))
            },
            (Some(p), Err(f)) => Err(load_failure_text(f, p.as_str())),
            (None, Ok(c)) => Ok(Config::load(Some(c), env)),
            (None, Err(_)) => Ok(Config::load(None, env)),
        }
    }
}

/// Without any override the settings stay as they are.
pub proof fn law_no_override_no_change(s: Settings, env: EnvOverrides)
    requires
        env.method is None,
        env.enable_wayland is None,
        env.log_level is None,
        env.log_path is None,
        env.log_modules is None,
        env.enable_evdev_grab is None,
        env.bracket_shortcuts is None,
        env.modern_style is None,
        env.enable_ibus is None,
    ensures
        overridden(s, env) == s,
{
}

/// Overriding twice with the same variables is overriding once.
pub proof fn law_overrides_are_idempotent(s: Settings, env: EnvOverrides)
    ensures
        overridden(overridden(s, env), env) == overridden(s, env),
{
}

/// Where the settings file is, where nothing else was said.
pub open spec fn default_place(config_home: Option<Seq<char>>, home: Option<Seq<char>>) -> Option<
    Seq<char>,
> {
    match config_home {
        Some(d) => Some(paths::join_of(paths::join_of(d, "daklak"@), "config.toml"@)),
        None => match home {
            Some(h) => Some(
                paths::join_of(
                    paths::join_of(paths::join_of(h, ".config"@), "daklak"@),
                    "config.toml"@,
                ),
            ),
            None => None,
        },
    }
}

/// Where the settings file is, where nothing else was said, if the environment
/// says where settings are.
pub fn default_config_path(config_home: &Option<String>, home: &Option<String>) -> (r: Option<
    String,
>)
    ensures
        opt_text(r) == default_place(opt_text(*config_home), opt_text(*home)),
{
    let dir = match config_home {
        Some(d) => d.as_str().to_owned(),
        None => match home {
            Some(h) => paths::join(h.as_str(), ".config"),
            None => {
                return None;
            },
        },
    };
    let dir = paths::join(dir.as_str(), "daklak");
    Some(paths::join(dir.as_str(), "config.toml"))
}

/// Each variable governs its own setting, and no other: one that is not there leaves its
/// setting, and what no variable governs stays.
pub proof fn law_variables_govern_their_settings(s: Settings, env: EnvOverrides)
    ensures
        ({
            let n = overridden(s, env);
            &&& n.method == match env.method {
                None => s.method,
                Some(v) => if strings::lowered(v@) == "vni"@ {
                    MethodConfig::Vni
                } else if strings::lowered(v@) == "viqr"@ {
                    MethodConfig::Viqr
                } else {
                    MethodConfig::Telex
                },
            }
            &&& n.enable_wayland == (env.enable_wayland matches Some(v) && truthy(v@)
                || env.enable_wayland is None && s.enable_wayland)
            &&& n.enable_evdev_grab == (env.enable_evdev_grab matches Some(v) && truthy(v@)
                || env.enable_evdev_grab is None && s.enable_evdev_grab)
            &&& n.bracket_shortcuts == (env.bracket_shortcuts matches Some(v) && truthy(v@)
                || env.bracket_shortcuts is None && s.bracket_shortcuts)
            &&& n.modern_style == (env.modern_style matches Some(v) && truthy(v@)
                || env.modern_style is None && s.modern_style)
            &&& n.enable_ibus == (env.enable_ibus matches Some(v) && truthy(v@)
                || env.enable_ibus is None && s.enable_ibus)
            &&& Some(n.log_level) == if env.log_level is Some {
                opt_text(env.log_level)
            } else {
                Some(s.log_level)
            }
            &&& Some(n.log_path) == if env.log_path is Some {
                opt_text(env.log_path)
            } else {
                Some(s.log_path)
            }
            &&& env.log_modules is None ==> n.log_modules == s.log_modules
            &&& env.log_modules matches Some(v) ==> n.log_modules == strings::trimmed_parts(
                strings::split(v@, ','),
            )
            &&& n.ibus_requested == s.ibus_requested
            &&& n.evdev_grab_hooks == s.evdev_grab_hooks
            &&& n.config_path == s.config_path
        }),
{
}

/// A switch is on by one of four words, in any case and with white space around it, and
/// off by any other.
pub proof fn law_switches_are_words(a: Seq<char>, word: Seq<char>, b: Seq<char>)
    requires
        strings::laws::blank(a) && strings::laws::blank(b) && strings::laws::trim(word),
    ensures
        truthy(a + word + b) == (strings::lowered(word) == "1"@ || strings::lowered(word)
            == "true"@ || strings::lowered(word) == "yes"@ || strings::lowered(word) == "on"@),
        truthy(a + word + b) == truthy(word),
{
    strings::laws::law_trimming_takes_white_space(a, word, b);
    let none = Seq::<char>::empty();
    strings::laws::law_trimming_takes_white_space(none, word, none);
    assert(none + word + none =~= word);
}

/// The switches that are printed are understood.
pub proof fn law_printed_switches_are_understood()
    ensures
        truthy("true"@) && truthy("on"@) && truthy("yes"@) && truthy("1"@),
        !truthy("false"@) && !truthy("off"@) && !truthy("no"@) && !truthy("0"@),
{
    reveal_strlit("1");
    reveal_strlit("true");
    reveal_strlit("yes");
    reveal_strlit("on");
    reveal_strlit("0");
    reveal_strlit("false");
    reveal_strlit("no");
    reveal_strlit("off");
    lemma_plain_word("true"@);
    lemma_plain_word("on"@);
    lemma_plain_word("yes"@);
    lemma_plain_word("1"@);
    lemma_plain_word("false"@);
    lemma_plain_word("off"@);
    lemma_plain_word("no"@);
    lemma_plain_word("0"@);
    assert("false"@[0] == 'f' && "off"@.len() == 3 && "no"@[0] == 'n' && "0"@[0] == '0');
    assert("off"@[0] == 'o' && "yes"@[0] == 'y' && "1"@[0] == '1' && "on"@[0] == 'o');
    assert("true"@[0] == 't');
}

proof fn lemma_plain_word(w: Seq<char>)
    requires
        w.len() > 0,
        forall|i: int|
            0 <= i < w.len() ==> 'a' <= #[trigger] w[i] <= 'z' || '0' <= w[i] <= '9',
    ensures
        strings::lowered(strings::trimmed(w)) == w,
{
    let none = Seq::<char>::empty();
    assert(!words::whitespace(w[0]) && !words::whitespace(w[w.len() - 1]));
    strings::laws::law_trimming_takes_white_space(none, w, none);
    assert(none + w + none =~= w);
    assert(strings::lowered(w) =~= w);
}

/// Every input method is its engine's, and no two share one.
pub proof fn law_methods_are_told_apart(a: MethodConfig, b: MethodConfig)
    ensures
        engine_method(a) == engine_method(b) <==> a == b,
        a == MethodConfig::Telex <==> engine_method(a) == InputMethod::Telex,
        a == MethodConfig::Vni <==> engine_method(a) == InputMethod::Vni,
        a == MethodConfig::Viqr <==> engine_method(a) == InputMethod::Viqr,
{
}

/// Without a settings file: Telex, tones the modern way, over Wayland; nothing is grabbed,
/// and nothing beside it is switched on.
pub proof fn law_defaults()
    ensures
        ({
            let s = default_settings();
            &&& s.method == MethodConfig::Telex && s.modern_style && s.enable_wayland
            &&& !s.enable_evdev_grab && !s.bracket_shortcuts && !s.enable_ibus
                && !s.ibus_requested
            &&& s.log_level == "error"@ && s.log_path == "/dev/stdout"@
            &&& s.log_modules.len() == 0 && s.evdev_grab_hooks.len() == 0 && s.config_path is None
        }),
{
}

} // verus!
