//! Sessions come and go with the focus.
use vstd::prelude::*;

use crate::composer::session;
use crate::composer::session::Session;
use crate::composer::Composer;
use crate::config;
use crate::config::Settings;
use crate::edit::modifiers::ModifierState;
use crate::edit::BackspaceMethod;
use crate::engine;
use crate::engine::SyllableEngine;
use crate::handler;
use crate::handler::keys;
use crate::handler::{Daemon, Hub, Route};

verus! {

/// A new session of this daemon.
#[verifier::opaque]
pub open spec fn new_session(
    kind: engine::Kind,
    settings: Settings,
    m: ModifierState,
    tier: BackspaceMethod,
) -> Session {
    let s = session::started(
        kind,
        config::engine_method(settings.method),
        tier,
        settings.bracket_shortcuts,
    );
    session::modified(
        Session {
            engine: engine::asked(s.engine, session::styled(settings.modern_style)),
            ..s
        },
        m,
    )
}

/// The routing state without a session.
pub open spec fn cleared(r: Route) -> Route {
    Route {
        current_active: false,
        synthetic_active: false,
        session: None,
        focused_app_id: None,
        ..r
    }
}

/// The focus is on a window that may get a session of our own making: it has an
/// id, and there is a virtual keyboard to reach it.
pub open spec fn reachable(app_id: Option<Seq<char>>, vk_available: bool) -> bool {
    app_id is Some && vk_available
}

/// The routing state once the focus moved. A window that never asks for text input
/// gets a session that deletes with Backspace keys, and that is known not to apply
/// committed strings.
#[verifier::opaque]
pub open spec fn focus_moved(
    settings: Settings,
    r: Route,
    app_id: Option<Seq<char>>,
    vk_available: bool,
) -> Route {
    if reachable(app_id, vk_available) && (!r.current_active || (r.synthetic_active
        && r.focused_app_id != app_id)) {
        Route {
            current_active: true,
            synthetic_active: true,
            focused_app_id: app_id,
            session: Some(
                Session {
                    commit_string_functional: false,
                    ..new_session(r.kind, settings, r.modifiers, BackspaceMethod::ForwardKey)
                },
            ),
            ..r
        }
    } else if r.synthetic_active && !reachable(app_id, vk_available) {
        cleared(r)
    } else {
        r
    }
}

fn same_text(a: &Option<String>, b: &Option<String>) -> (r: bool)
    ensures
        r == (config::opt_text(*a) == config::opt_text(*b)),
{
    match (a, b) {
        (Some(a), Some(b)) => *a.as_str() == *b.as_str(),
        (None, None) => true,
        _ => false,
    }
}

/// A new session for grabbed keyboards.
pub open spec fn evdev_activated(h: Hub) -> Hub {
    Hub {
        router: Route {
            current_active: true,
            synthetic_active: true,
            session: Some(
                new_session(h.router.kind, h.settings, h.router.modifiers, BackspaceMethod::ForwardKey),
            ),
            ..h.router
        },
        ..h
    }
}

/// The session forgets the character that was typed last.
pub open spec fn last_char_forgotten(h: Hub) -> Hub {
    handler::with_session(
        h,
        match h.router.session {
            Some(s) => Some(Session { last_input_char: None, ..s }),
            None => None,
        },
    )
}

/// The session starts over.
pub open spec fn window_reset(h: Hub) -> Hub {
    handler::with_session(
        h,
        match h.router.session {
            Some(s) => Some(session::fully_reset(s)),
            None => None,
        },
    )
}

/// A session for an IBus client, unless there is one.
pub open spec fn ibus_activated(h: Hub, method: BackspaceMethod) -> Hub {
    if h.router.current_active {
        h
    } else {
        Hub {
            router: Route {
                current_active: true,
                session: Some(new_session(h.router.kind, h.settings, h.router.modifiers, method)),
                ..h.router
            },
            ..h
        }
    }
}

/// No IBus session any more.
pub open spec fn ibus_deactivated(h: Hub) -> Hub {
    Hub { router: Route { current_active: false, session: None, ..h.router }, ..h }
}

/// The session, where there is one, edits by `want`.
pub open spec fn ibus_method_updated(h: Hub, want: BackspaceMethod) -> Hub {
    handler::with_session(
        h,
        match h.router.session {
            Some(s) => Some(
                if session::tier(s) == want {
                    s
                } else {
                    session::tier_switched(s, want)
                },
            ),
            None => None,
        },
    )
}

impl<E: SyllableEngine> Daemon<E> {
    /// A new composer for a session of this daemon.
    pub fn new_composer(&self, tier: BackspaceMethod) -> (c: Composer<E>)
        ensures
            c@ == new_session(self@.router.kind, self@.settings, self@.router.modifiers, tier),
    {
        reveal(new_session);
        let mut c = Composer::new(
            self.config.method.to_engine(),
            tier,
            self.config.bracket_shortcuts,
        );
        c.set_modern_style(self.config.modern_style);
        c.set_modifiers(self.router.modifiers);
        c
    }

    /// The focus moved to another window, or away from all of them.
    pub fn on_focus_changed(&mut self, app_id: Option<String>, vk_available: bool)
        ensures
            final(self)@ == (Hub {
                router: focus_moved(
                    old(self)@.settings,
                    old(self)@.router,
                    config::opt_text(app_id),
                    vk_available,
                ),
                ..old(self)@
            }),
    {
        reveal(focus_moved);
        let matched = app_id.is_some() && vk_available;
        let target_changed = self.router.synthetic_active && matched && !same_text(
            &self.router.focused_app_id,
            &app_id,
        );
        if matched && (!self.router.current_active || target_changed) {
            let mut c = self.new_composer(BackspaceMethod::ForwardKey);
            c.commit_string_functional = false;
            self.router.current_active = true;
            self.router.synthetic_active = true;
            self.router.focused_app_id = app_id;
            self.router.composer = Some(c);
        } else if self.router.synthetic_active && !matched {
            self.clear_session();
        }
    }

    /// End the session.
    pub fn clear_session(&mut self)
        ensures
            final(self)@ == (Hub { router: cleared(old(self)@.router), ..old(self)@ }),
    {
        self.router.current_active = false;
        self.router.synthetic_active = false;
        self.router.composer = None;
        self.router.focused_app_id = None;
    }

    /// Start a session for grabbed keyboards. Their adapter types every edit
    /// itself, so the tier is only a label.
    pub fn activate_evdev(&mut self)
        ensures
            final(self)@ == evdev_activated(old(self)@),
    {
        let c = self.new_composer(BackspaceMethod::ForwardKey);
        self.router.current_active = true;
        self.router.synthetic_active = true;
        self.router.composer = Some(c);
    }

    /// Start a session for IBus, unless one is active.
    pub fn activate_ibus(&mut self, method: BackspaceMethod)
        ensures
            final(self)@ == ibus_activated(old(self)@, method),
    {
        if self.router.current_active {
            return;
        }
        let c = self.new_composer(method);
        self.router.composer = Some(c);
        self.router.current_active = true;
    }

    /// End an IBus session.
    pub fn deactivate_ibus(&mut self)
        ensures
            final(self)@ == ibus_deactivated(old(self)@),
    {
        self.router.composer = None;
        self.router.current_active = false;
    }

    /// The IBus client can do more, or less, than it could.
    pub fn update_ibus_method(&mut self, want: BackspaceMethod)
        ensures
            final(self)@ == ibus_method_updated(old(self)@, want),
    {
        match &mut self.router.composer {
            None => {},
            Some(w) => {
                if w.method() != want {
                    w.set_method(want);
                }
            },
        }
    }

    /// Forget the last key.
    pub fn clear_last_input_char(&mut self)
        ensures
            final(self)@ == last_char_forgotten(old(self)@),
    {
        match &mut self.router.composer {
            None => {},
            Some(w) => {
                w.last_input_char = None;
            },
        }
    }

    /// Drop the word in progress.
    pub fn full_reset_window(&mut self)
        ensures
            final(self)@ == window_reset(old(self)@),
    {
        match &mut self.router.composer {
            None => {},
            Some(w) => {
                w.full_reset();
            },
        }
    }

    /// Drop the engine's word after a pause.
    pub fn check_idle_reset_window(&mut self)
        ensures
            exists|idle: bool|
                final(self)@ == keys::routed(
                    old(self)@,
                    #[trigger] keys::idle_noted(old(self)@.router, idle),
                ),
    {
        self.router.check_idle();
    }
}

} // verus!
