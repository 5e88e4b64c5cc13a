//! Key routing.
use vstd::prelude::*;

use crate::composer::keys;
use crate::composer::session;
use crate::composer::session::Session;
use crate::edit;
use crate::edit::modifiers::{ModifierState, ALT, CTRL, SUPER};
use crate::edit::KeyDecision;
use crate::engine;
use crate::engine::SyllableEngine;
use crate::handler;
use crate::handler::{Daemon, Hub, Route, Router, KEY_BACKSPACE, KEY_ESC};

verus! {

/// A key that moves the cursor: the arrows, Home, End, Page Up and Page Down.
pub open spec fn navigates(key: u32) -> bool {
    key == 105 || key == 106 || key == 103 || key == 108 || key == 102 || key == 107 || key == 104
        || key == 109
}

pub fn is_nav_key(key: u32) -> (b: bool)
    ensures
        b == navigates(key),
{
    key == 105 || key == 106 || key == 103 || key == 108 || key == 102 || key == 107 || key == 104
        || key == 109
}

/// Control, Alt or Super is held, so the key is a shortcut.
pub open spec fn shortcut(m: ModifierState) -> bool {
    m.bits & 0x4c != 0
}

pub fn is_shortcut(m: ModifierState) -> (b: bool)
    ensures
        b == shortcut(m),
{
    assert(CTRL | ALT | SUPER == 0x4c) by (bit_vector)
        requires
            CTRL == 0x04,
            ALT == 0x08,
            SUPER == 0x40,
    ;
    m.intersects(CTRL | ALT | SUPER)
}

/// A control character.
pub open spec fn control_char(c: char) -> bool {
    c as u32 <= 0x1f || 0x7f <= c as u32 <= 0x9f
}

pub fn is_control_char(c: char) -> (b: bool)
    ensures
        b == control_char(c),
{
    let n: u32 = c as u32;
    n <= 0x1f || (0x7f <= n && n <= 0x9f)
}

/// Where a key goes.
#[derive(Debug, Clone, Copy, PartialEq, Eq, Structural)]
pub enum Destination {
    /// Composition is off: to the client as it is.
    Off,
    /// A shortcut: to the client, and the word ends.
    Shortcut,
    /// The cursor moves: to the client, and the word ends.
    Navigation,
    /// There is nothing to compose in: to the client as it is.
    NoSession,
    /// A repetition of a key that composes: nowhere.
    Swallow,
    /// To the composer, as a Backspace.
    Backspace,
    /// To the client; the word goes on.
    Escape,
    /// To the composer.
    Character(char),
    /// A key without a character: to the client.
    Other,
}

/// Where a key goes on transports whose adapter forwards keys itself.
pub open spec fn destination(
    enabled: bool,
    m: ModifierState,
    session: bool,
    key: u32,
    ch: Option<char>,
) -> Destination {
    if !enabled {
        Destination::Off
    } else if shortcut(m) {
        Destination::Shortcut
    } else if navigates(key) {
        Destination::Navigation
    } else if !session {
        Destination::NoSession
    } else if key == KEY_BACKSPACE {
        Destination::Backspace
    } else if key == KEY_ESC {
        Destination::Escape
    } else {
        match ch {
            Some(c) => Destination::Character(c),
            None => Destination::Other,
        }
    }
}

/// Where a key goes on transports whose adapter forwards keys itself.
pub fn route_key(
    enabled: bool,
    m: ModifierState,
    session: bool,
    key: u32,
    ch: Option<char>,
) -> (d: Destination)
    ensures
        d == destination(enabled, m, session, key, ch),
{
    if !enabled {
        Destination::Off
    } else if is_shortcut(m) {
        Destination::Shortcut
    } else if is_nav_key(key) {
        Destination::Navigation
    } else if !session {
        Destination::NoSession
    } else if key == KEY_BACKSPACE {
        Destination::Backspace
    } else if key == KEY_ESC {
        Destination::Escape
    } else {
        match ch {
            Some(c) => Destination::Character(c),
            None => Destination::Other,
        }
    }
}

/// Where a key goes on a grabbed Wayland keyboard, whose held keys repeat.
pub open spec fn grab_destination(
    enabled: bool,
    m: ModifierState,
    session: bool,
    repeat: bool,
    key: u32,
    ch: Option<char>,
) -> Destination {
    if !enabled {
        Destination::Off
    } else if shortcut(m) {
        Destination::Shortcut
    } else if navigates(key) {
        Destination::Navigation
    } else if !session {
        Destination::NoSession
    } else if repeat {
        Destination::Swallow
    } else if key == KEY_BACKSPACE {
        Destination::Backspace
    } else {
        match ch {
            Some(c) => Destination::Character(c),
            None => Destination::Other,
        }
    }
}

/// Where a key goes on a grabbed Wayland keyboard, whose held keys repeat.
pub fn route_grabbed_key(
    enabled: bool,
    m: ModifierState,
    session: bool,
    repeat: bool,
    key: u32,
    ch: Option<char>,
) -> (d: Destination)
    ensures
        d == grab_destination(enabled, m, session, repeat, key, ch),
{
    if !enabled {
        Destination::Off
    } else if is_shortcut(m) {
        Destination::Shortcut
    } else if is_nav_key(key) {
        Destination::Navigation
    } else if !session {
        Destination::NoSession
    } else if repeat {
        Destination::Swallow
    } else if key == KEY_BACKSPACE {
        Destination::Backspace
    } else {
        match ch {
            Some(c) => Destination::Character(c),
            None => Destination::Other,
        }
    }
}

/// The session once its word has ended and the next frame is no echo.
pub open spec fn ended(s: Session) -> Session {
    Session { acted: false, ..session::fully_reset(s) }
}

/// The routing state once the word has ended.
#[verifier::opaque]
pub open spec fn word_ended(r: Route) -> Route {
    match r.session {
        Some(s) => Route { session: Some(ended(s)), ..r },
        None => r,
    }
}

/// The routing state once the next frame is known to be no echo.
#[verifier::opaque]
pub open spec fn deferred(r: Route) -> Route {
    match r.session {
        Some(s) => Route { session: Some((Session { acted: false, ..s })), ..r },
        None => r,
    }
}

/// The routing state once the user has acted.
#[verifier::opaque]
pub open spec fn acted(r: Route) -> Route {
    match r.session {
        Some(s) => Route { session: Some((Session { acted: true, ..s })), ..r },
        None => r,
    }
}

/// The routing state once a pause was looked for, and found or not.
#[verifier::opaque]
pub open spec fn idle_noted(r: Route, idle: bool) -> Route {
    match r.session {
        Some(s) => if idle {
            Route { session: Some(session::idled(s)), ..r }
        } else {
            r
        },
        None => r,
    }
}

/// `(after, d)` is what a character leads to.
#[verifier::opaque]
pub open spec fn char_routed(r: Route, after: Route, ch: char, d: edit::Decision) -> bool {
    match r.session {
        None => after == r && d == edit::Decision::ForwardRaw,
        Some(s) => {
            &&& after.session is Some
            &&& after == (Route { session: after.session, ..r })
            &&& (after.session->0, d) == keys::key_outcome(s, ch)
        },
    }
}

/// `(after, d)` is what a Backspace leads to.
#[verifier::opaque]
pub open spec fn backspace_routed(r: Route, after: Route, d: edit::Decision) -> bool {
    match r.session {
        None => after == r && d == edit::Decision::ForwardRaw,
        Some(s) => {
            &&& after.session is Some
            &&& after == (Route { session: after.session, ..r })
            &&& (after.session->0, d) == keys::backspace_outcome(s)
        },
    }
}

impl<E: SyllableEngine> Router<E> {
    pub fn end_word(&mut self)
        ensures
            final(self)@ == word_ended(old(self)@),
    {
        reveal(word_ended);
        match &mut self.composer {
            None => {},
            Some(w) => {
                w.full_reset();
                w.defer_action();
            },
        }
    }

    fn defer_action(&mut self)
        ensures
            final(self)@ == deferred(old(self)@),
    {
        reveal(deferred);
        match &mut self.composer {
            None => {},
            Some(w) => {
                w.defer_action();
            },
        }
    }

    pub fn mark_action(&mut self)
        ensures
            final(self)@ == acted(old(self)@),
    {
        reveal(acted);
        match &mut self.composer {
            None => {},
            Some(w) => {
                w.mark_action();
            },
        }
    }

    pub fn check_idle(&mut self)
        ensures
            exists|idle: bool| final(self)@ == #[trigger] idle_noted(old(self)@, idle),
    {
        reveal(idle_noted);
        let ghost start = self@;
        match &mut self.composer {
            None => {
                assert(self@ == idle_noted(start, false));
            },
            Some(w) => {
                let idle = w.check_idle_reset();
                assert(idle_noted(start, idle).session == Some(w@));
            },
        }
    }

    pub fn feed_char(&mut self, ch: char) -> (d: KeyDecision)
        ensures
            char_routed(old(self)@, final(self)@, ch, d@),
    {
        reveal(char_routed);
        match &mut self.composer {
            None => KeyDecision::ForwardRaw,
            Some(w) => w.feed_key(ch),
        }
    }

    pub fn feed_backspace(&mut self) -> (d: KeyDecision)
        ensures
            backspace_routed(old(self)@, final(self)@, d@),
    {
        reveal(backspace_routed);
        match &mut self.composer {
            None => KeyDecision::ForwardRaw,
            Some(w) => w.feed_backspace(),
        }
    }
}

/// The same daemon with another routing state.
pub open spec fn routed(h: Hub, r: Route) -> Hub {
    Hub { router: r, ..h }
}

/// The daemon before a key is routed: settings applied, a pause noticed, and the
/// on/off state too.
pub open spec fn key_prepared(h: Hub, idle: bool) -> Hub {
    let c = handler::config_synced(h);
    handler::edge_synced(routed(c, idle_noted(c.router, idle)))
}

/// `(after, d)` is what a key leads to once it is at its destination.
#[verifier::opaque]
pub open spec fn key_arrived(h: Hub, after: Hub, to: Destination, d: edit::Decision) -> bool {
    match to {
        Destination::Shortcut | Destination::Navigation | Destination::Other => {
            after == routed(h, word_ended(h.router)) && d == edit::Decision::ForwardRaw
        },
        Destination::Escape => after == routed(h, deferred(h.router)) && d
            == edit::Decision::ForwardRaw,
        Destination::Backspace => after == routed(h, after.router) && backspace_routed(
            h.router,
            after.router,
            d,
        ),
        Destination::Character(ch) => after == routed(h, after.router) && char_routed(
            acted(h.router),
            after.router,
            ch,
            d,
        ),
        _ => after == h && d == edit::Decision::ForwardRaw,
    }
}

/// `(after, d)` is what a key leads to: it is prepared for and sent to its
/// destination.
#[verifier::opaque]
pub open spec fn key_processed(
    h: Hub,
    after: Hub,
    key: u32,
    ch: Option<char>,
    d: edit::Decision,
) -> bool {
    exists|idle: bool| #[trigger]
        key_arrived(
            key_prepared(h, idle),
            after,
            destination(h.enabled, h.router.modifiers, h.router.session is Some, key, ch),
            d,
        )
}

pub proof fn lemma_synced_keeps(h: Hub)
    ensures
        handler::config_synced(h).enabled == h.enabled,
        handler::config_synced(h).router.modifiers == h.router.modifiers,
        handler::config_synced(h).router.session is Some <==> h.router.session is Some,
        handler::config_synced(h).change is None,
        h.change is None ==> handler::config_synced(h) == h,
{
    reveal(handler::config_synced);
    reveal(handler::route_reconfigured);
}

pub proof fn lemma_prepared_keeps(h: Hub, idle: bool)
    ensures
        key_prepared(h, idle).enabled == h.enabled,
        key_prepared(h, idle).router.modifiers == h.router.modifiers,
        key_prepared(h, idle).router.session is Some <==> h.router.session is Some,
        key_prepared(h, idle).change is None,
{
    lemma_synced_keeps(h);
    reveal(idle_noted);
    reveal(handler::edge_synced);
}

proof fn lemma_ended_after_action(r: Route)
    ensures
        word_ended(acted(r)) == word_ended(r),
{
    reveal(word_ended);
    reveal(acted);
}

impl<E: SyllableEngine> Daemon<E> {
    pub fn prepare_key(&mut self) -> (on: bool)
        ensures
            on == old(self)@.enabled,
            exists|idle: bool| final(self)@ == #[trigger] key_prepared(old(self)@, idle),
    {
        let ghost start = self@;
        self.sync_config();
        let ghost synced = self@;
        self.router.check_idle();
        let ghost looked = self@;
        let on = self.sync_enabled_edge();
        proof {
            let idle = choose|i: bool| looked.router == #[trigger] idle_noted(synced.router, i);
            lemma_synced_keeps(start);
            assert(looked == routed(synced, idle_noted(synced.router, idle)));
            assert(self@ == key_prepared(start, idle));
        }
        on
    }

    /// Decide a key. Shortcuts and keys that move the cursor end the word. So does
    /// a key without a character, such as Enter: the next key must not extend the
    /// word of the line before.
    pub fn process_key(&mut self, key: u32, ch: Option<char>) -> (d: KeyDecision)
        ensures
            key_processed(old(self)@, final(self)@, key, ch, d@),
    {
        let ghost start = self@;
        let on = self.prepare_key();
        let ghost ready = self@;
        let session = self.router.composer.is_some();
        let to = route_key(on, self.router.modifiers, session, key, ch);
        proof {
            let idle = choose|i: bool| ready == #[trigger] key_prepared(start, i);
            lemma_prepared_keeps(start, idle);
        }
        let d = self.deliver_key(to);
        proof {
            reveal(key_processed);
            let idle = choose|i: bool| ready == #[trigger] key_prepared(start, i);
            assert(key_arrived(key_prepared(start, idle), self@, to, d@));
        }
        d
    }

    fn deliver_key(&mut self, to: Destination) -> (d: KeyDecision)
        requires
            old(self)@.change is None,
        ensures
            key_arrived(old(self)@, final(self)@, to, d@),
    {
        reveal(key_arrived);
        match to {
            Destination::Shortcut | Destination::Navigation => {
                self.router.end_word();
                KeyDecision::ForwardRaw
            },
            Destination::Backspace => self.router.feed_backspace(),
            Destination::Escape => {
                self.router.defer_action();
                KeyDecision::ForwardRaw
            },
            Destination::Other => {
                proof {
                    lemma_ended_after_action(self@.router);
                }
                self.router.mark_action();
                self.router.end_word();
                KeyDecision::ForwardRaw
            },
            Destination::Character(c) => {
                self.router.mark_action();
                self.router.feed_char(c)
            },
            _ => KeyDecision::ForwardRaw,
        }
    }

    /// Feed a character to the session.
    pub fn handle_char(&mut self, ch: char) -> (d: KeyDecision)
        ensures
            ({
                let h = handler::config_synced(old(self)@);
                final(self)@ == routed(h, final(self)@.router) && char_routed(
                    h.router,
                    final(self)@.router,
                    ch,
                    d@,
                )
            }),
    {
        self.sync_config();
        self.router.feed_char(ch)
    }

    /// Feed a Backspace to the session.
    pub fn handle_backspace(&mut self) -> (d: KeyDecision)
        ensures
            ({
                let h = handler::config_synced(old(self)@);
                final(self)@ == routed(h, final(self)@.router) && backspace_routed(
                    h.router,
                    final(self)@.router,
                    d@,
                )
            }),
    {
        self.sync_config();
        self.router.feed_backspace()
    }
}

} // verus!
