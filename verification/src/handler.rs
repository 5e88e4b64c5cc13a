//! The daemon: settings, the on/off gate, focus, and which key goes where.
//!
//! [`Daemon`] keeps at most one live [`Composer`]. Its entry points know nothing
//! of any transport; each transport's glue calls them.
use vstd::prelude::*;

use crate::composer::session;
use crate::composer::session::Session;
use crate::composer::Composer;
use crate::config;
use crate::config::{Config, Settings};
use crate::control::ConfigChange;
use crate::edit::modifiers;
use crate::edit::modifiers::ModifierState;
use crate::edit::BackspaceMethod;
use crate::engine;
use crate::engine::SyllableEngine;
use crate::strings;

pub mod focus;
pub mod keys;
pub mod frames;
pub mod grab;
pub mod laws;
pub mod typing;

verus! {

/// Evdev code of Backspace.
pub const KEY_BACKSPACE: u32 = 14;

/// Evdev code of Escape.
pub const KEY_ESC: u32 = 1;

/// Lifecycle and composition state.
pub struct Router<E: SyllableEngine> {
    pub modifiers: ModifierState,
    pub current_active: bool,
    /// The session was made up by this daemon for a window that never asked for
    /// text input. A real activation always wins.
    pub synthetic_active: bool,
    pub composer: Option<Composer<E>>,
    /// The focused window's id, while a session is active.
    pub focused_app_id: Option<String>,
    /// Whether composition was on at the last key.
    pub last_enabled: bool,
}

/// [`Router`] as values.
pub struct Route {
    /// What the engines of its sessions are like.
    pub kind: engine::Kind,
    pub modifiers: ModifierState,
    pub current_active: bool,
    pub synthetic_active: bool,
    pub session: Option<Session>,
    pub focused_app_id: Option<Seq<char>>,
    pub last_enabled: bool,
}

/// A session, if there is a composer.
pub open spec fn session_of<E: SyllableEngine>(c: Option<Composer<E>>) -> Option<Session> {
    match c {
        Some(w) => Some(w@),
        None => None,
    }
}

impl<E: SyllableEngine> View for Router<E> {
    type V = Route;

    open spec fn view(&self) -> Route {
        Route {
            kind: engine::kind_of::<E>(),
            modifiers: self.modifiers,
            current_active: self.current_active,
            synthetic_active: self.synthetic_active,
            session: session_of(self.composer),
            focused_app_id: config::opt_text(self.focused_app_id),
            last_enabled: self.last_enabled,
        }
    }
}

/// No session yet.
pub open spec fn fresh_route(kind: engine::Kind) -> Route {
    Route {
        kind,
        modifiers: ModifierState { bits: 0 },
        current_active: false,
        synthetic_active: false,
        session: None,
        focused_app_id: None,
        last_enabled: true,
    }
}

impl<E: SyllableEngine> Router<E> {
    fn new() -> (r: Self)
        ensures
            r@ == fresh_route(engine::kind_of::<E>()),
    {
        Router {
            modifiers: ModifierState::empty(),
            current_active: false,
            synthetic_active: false,
            composer: None,
            focused_app_id: None,
            last_enabled: true,
        }
    }

    /// Let the session follow a change of settings.
    fn reconfigure(&mut self, last: ConfigChange, c: ConfigChange)
        ensures
            final(self)@ == route_reconfigured(old(self)@, last, c),
    {
        reveal(route_reconfigured);
        match &mut self.composer {
            None => {},
            Some(w) => {
                w.reconfigure(last, c);
            },
        }
    }
}

proof fn lemma_nothing_reconfigured(r: Route, c: ConfigChange)
    ensures
        route_reconfigured(r, c, c) == r,
{
    reveal(route_reconfigured);
    reveal(reconfigured);
}

/// Settings and shared state.
pub struct Daemon<E: SyllableEngine> {
    pub config: Config,
    pub router: Router<E>,
    /// Forced tier for terminals.
    pub terminal_override: Option<BackspaceMethod>,
    /// Whether composition is on. Others switch it; it is read at each key.
    pub enabled: bool,
    /// A change of settings that has not been applied yet.
    pub config_change: Option<ConfigChange>,
    /// The settings applied last.
    pub last_config: ConfigChange,
}

/// [`Daemon`] as values.
pub struct Hub {
    pub settings: Settings,
    pub router: Route,
    pub terminal_override: Option<BackspaceMethod>,
    pub enabled: bool,
    pub change: Option<ConfigChange>,
    pub last_config: ConfigChange,
}

impl<E: SyllableEngine> View for Daemon<E> {
    type V = Hub;

    open spec fn view(&self) -> Hub {
        Hub {
            settings: self.config@,
            router: self.router@,
            terminal_override: self.terminal_override,
            enabled: self.enabled,
            change: self.config_change,
            last_config: self.last_config,
        }
    }
}

/// The tier that is forced on terminals by a setting's text.
pub open spec fn forced_tier(setting: Option<Seq<char>>) -> Option<BackspaceMethod> {
    match setting {
        Some(t) => if strings::lowered(t) == "surrounding"@ || strings::lowered(t)
            == "surrounding_text"@ || strings::lowered(t) == "tier1"@ {
            Some(BackspaceMethod::SurroundingText)
        } else {
            None
        },
        None => None,
    }
}

/// The tier that is forced on terminals by a setting's text.
pub fn terminal_tier(setting: &Option<String>) -> (r: Option<BackspaceMethod>)
    ensures
        r == forced_tier(config::opt_text(*setting)),
{
    match setting {
        Some(t) => {
            let t = strings::to_lower(t.as_str());
            if *t.as_str() == *"surrounding" || *t.as_str() == *"surrounding_text" || *t.as_str()
                == *"tier1" {
                Some(BackspaceMethod::SurroundingText)
            } else {
                None
            }
        },
        None => None,
    }
}

/// The same daemon with another session.
pub open spec fn with_session(h: Hub, s: Option<Session>) -> Hub {
    Hub { router: Route { session: s, ..h.router }, ..h }
}

/// The session once it is told of a change of settings from `last` to `c`.
#[verifier::opaque]
pub open spec fn reconfigured(s: Session, last: ConfigChange, c: ConfigChange) -> Session {
    let a = if c.method != last.method {
        session::method_changed(s, config::engine_method(c.method))
    } else {
        s
    };
    if c.modern_style != last.modern_style {
        Session { engine: engine::asked(a.engine, session::styled(c.modern_style)), ..a }
    } else {
        a
    }
}

/// The routing state once its session is told of a change of settings.
#[verifier::opaque]
pub open spec fn route_reconfigured(r: Route, last: ConfigChange, c: ConfigChange) -> Route {
    match r.session {
        Some(s) => Route { session: Some(reconfigured(s, last, c)), ..r },
        None => r,
    }
}

/// The daemon once a waiting change of settings is applied. Settings that did not
/// change leave the session alone: a reset in the middle of a word would break it.
#[verifier::opaque]
pub open spec fn config_synced(h: Hub) -> Hub {
    match h.change {
        None => h,
        Some(c) => Hub {
            settings: Settings {
                method: if c.method != h.last_config.method {
                    c.method
                } else {
                    h.settings.method
                },
                modern_style: if c.modern_style != h.last_config.modern_style {
                    c.modern_style
                } else {
                    h.settings.modern_style
                },
                ..h.settings
            },
            router: route_reconfigured(h.router, h.last_config, c),
            change: None,
            last_config: c,
            ..h
        },
    }
}

/// The daemon once it noticed whether composition is on: turning it off ends the
/// word in progress.
#[verifier::opaque]
pub open spec fn edge_synced(h: Hub) -> Hub {
    Hub {
        router: Route {
            session: match h.router.session {
                Some(s) => if h.router.last_enabled && !h.enabled {
                    Some(session::fully_reset(s))
                } else {
                    Some(s)
                },
                None => None,
            },
            last_enabled: h.enabled,
            ..h.router
        },
        ..h
    }
}

impl<E: SyllableEngine> Composer<E> {
    /// Follow a change of settings.
    fn reconfigure(&mut self, last: ConfigChange, c: ConfigChange)
        ensures
            final(self)@ == reconfigured(old(self)@, last, c),
    {
        reveal(reconfigured);
        if c.method != last.method {
            self.set_input_method(c.method.to_engine());
        }
        if c.modern_style != last.modern_style {
            self.set_modern_style(c.modern_style);
        }
    }
}

impl<E: SyllableEngine> Daemon<E> {
    /// A daemon with no session. `terminal_setting` may force a tier on terminals.
    pub fn new(config: Config, enabled: bool, terminal_setting: Option<String>) -> (d: Self)
        ensures
            d@ == (Hub {
                settings: config@,
                router: fresh_route(engine::kind_of::<E>()),
                terminal_override: forced_tier(config::opt_text(terminal_setting)),
                enabled,
                change: None,
                last_config: ConfigChange {
                    method: config@.method,
                    modern_style: config@.modern_style,
                },
            }),
    {
        let last_config = ConfigChange {
            method: config.method,
            modern_style: config.modern_style,
        };
        Daemon {
            config,
            router: Router::new(),
            terminal_override: terminal_tier(&terminal_setting),
            enabled,
            config_change: None,
            last_config,
        }
    }

    /// Apply a waiting change of settings.
    pub fn sync_config(&mut self)
        ensures
            final(self)@ == config_synced(old(self)@),
    {
        reveal(config_synced);
        let ghost start = self@;
        match self.config_change {
            None => {},
            Some(c) => {
                let last = self.last_config;
                if c.no_change_from(&last) {
                    self.config_change = None;
                    proof {
                        lemma_nothing_reconfigured(start.router, c);
                    }
                    return;
                }
                self.apply_change(last, c);
            },
        }
    }

    fn apply_change(&mut self, last: ConfigChange, c: ConfigChange)
        requires
            old(self)@.last_config == last,
            old(self)@.change == Some(c),
        ensures
            final(self)@ == config_synced(old(self)@),
    {
        reveal(config_synced);
        if c.method != last.method {
            self.config.method = c.method;
        }
        if c.modern_style != last.modern_style {
            self.config.modern_style = c.modern_style;
        }
        self.last_config = c;
        self.config_change = None;
        self.router.reconfigure(last, c);
    }

    /// Notice whether composition is on. Turning it off ends the word in progress,
    /// so that it starts clean when it is on again.
    pub fn sync_enabled_edge(&mut self) -> (on: bool)
        ensures
            final(self)@ == edge_synced(old(self)@),
            on == old(self)@.enabled,
    {
        reveal(edge_synced);
        let on = self.enabled;
        if self.router.last_enabled && !on {
            match &mut self.router.composer {
                None => {},
                Some(w) => {
                    w.full_reset();
                },
            }
        }
        self.router.last_enabled = on;
        on
    }
}

} // verus!
