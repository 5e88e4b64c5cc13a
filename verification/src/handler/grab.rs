//! Keys of a grabbed Wayland keyboard, and edits for it.
use vstd::prelude::*;

use crate::composer::delivery;
use crate::composer::session;
use crate::edit;
use crate::edit::modifiers::ModifierState;
use crate::edit::{BackspaceMethod, KeyDecision, OutputSink};
use crate::engine::SyllableEngine;
use crate::handler;
use crate::handler::keys;
use crate::handler::keys::{is_control_char, route_grabbed_key, Destination};
use crate::handler::{Daemon, Hub, Route, Router};

verus! {

/// A key of a grabbed keyboard.
pub struct KeyPress {
    pub key: u32,
    pub ch: Option<char>,
    /// The key is held and repeats.
    pub repeat: bool,
    /// Text can be committed as key symbols. Clients of such a transport decode a
    /// forwarded key without its modifiers.
    pub keysym_commit: bool,
    /// The modifiers make the key's character another than its base one.
    pub level_shifted: bool,
}

/// What becomes of a key, and whether it is pressed on the virtual keyboard now.
pub struct KeyVerdict {
    pub decision: KeyDecision,
    pub press_key: bool,
}

/// The daemon before a grabbed key is routed. A repetition is no keystroke: it
/// changes nothing but the settings.
pub open spec fn press_prepared(h: Hub, idle: bool, repeat: bool) -> Hub {
    if repeat {
        handler::config_synced(h)
    } else {
        keys::key_prepared(h, idle)
    }
}

/// The character that a client would decode wrongly is committed as text.
pub open spec fn committed_as_text(p: KeyPress, ch: char) -> bool {
    p.keysym_commit && p.level_shifted && !keys::control_char(ch)
}

/// The routing state and the decision once a forwarded character is committed as
/// text instead.
#[verifier::opaque]
pub open spec fn diverted(r: Route, ch: char) -> (Route, edit::Decision) {
    (
        match r.session {
            Some(s) => Route { session: Some(session::char_unrecorded(s)), ..r },
            None => r,
        },
        edit::Decision::Apply {
            method: match r.session {
                Some(s) => session::tier(s),
                None => BackspaceMethod::ForwardKey,
            },
            backspaces: 0,
            commit: seq![ch],
        },
    )
}

/// `(after, d)` is what a character of a grabbed keyboard leads to.
#[verifier::opaque]
pub open spec fn grabbed_char(
    r: Route,
    after: Route,
    p: KeyPress,
    ch: char,
    d: edit::Decision,
) -> bool {
    exists|mid: Route, first: edit::Decision|
        #[trigger] keys::char_routed(r, mid, ch, first) && if first
            == edit::Decision::ForwardRaw && committed_as_text(p, ch) {
            (after, d) == diverted(mid, ch)
        } else {
            after == mid && d == first
        }
}

/// `(after, d, press)` is what a grabbed key leads to at its destination.
#[verifier::opaque]
pub open spec fn press_arrived(
    h: Hub,
    after: Hub,
    p: KeyPress,
    to: Destination,
    d: edit::Decision,
    press: bool,
) -> bool {
    match to {
        Destination::Shortcut | Destination::Navigation => {
            &&& after == if p.repeat {
                h
            } else {
                keys::routed(h, keys::word_ended(h.router))
            }
            &&& d == edit::Decision::Consumed
            &&& press
        },
        Destination::Swallow => after == h && d == edit::Decision::Consumed && !press,
        Destination::Backspace => {
            &&& after == keys::routed(h, after.router)
            &&& keys::backspace_routed(h.router, after.router, d)
            &&& !press
        },
        Destination::Character(ch) => {
            &&& after == keys::routed(h, after.router)
            &&& grabbed_char(keys::acted(h.router), after.router, p, ch, d)
            &&& !press
        },
        Destination::Other => after == keys::routed(h, keys::acted(h.router)) && d
            == edit::Decision::ForwardRaw && !press,
        _ => after == h && d == edit::Decision::ForwardRaw && !press,
    }
}

/// `(after, d, press)` is what a grabbed key leads to.
#[verifier::opaque]
pub open spec fn press_processed(
    h: Hub,
    after: Hub,
    p: KeyPress,
    d: edit::Decision,
    press: bool,
) -> bool {
    exists|idle: bool| #[trigger]
        press_arrived(
            press_prepared(h, idle, p.repeat),
            after,
            p,
            keys::grab_destination(
                h.enabled,
                h.router.modifiers,
                h.router.session is Some,
                p.repeat,
                p.key,
                p.ch,
            ),
            d,
            press,
        )
}

impl<E: SyllableEngine> Router<E> {
    /// Commit a character as text that was about to be forwarded.
    fn divert_char(&mut self, ch: char) -> (d: KeyDecision)
        ensures
            (final(self)@, d@) == diverted(old(self)@, ch),
    {
        reveal(diverted);
        let method = match &mut self.composer {
            None => BackspaceMethod::ForwardKey,
            Some(w) => {
                w.unrecord_forwarded_char();
                w.method()
            },
        };
        let mut commit = String::new();
        commit.push(ch);
        assert(commit@ =~= seq![ch]);
        KeyDecision::Apply { method, backspaces: 0, commit }
    }

    fn feed_grabbed_char(&mut self, p: &KeyPress, ch: char) -> (d: KeyDecision)
        ensures
            grabbed_char(old(self)@, final(self)@, *p, ch, d@),
    {
        reveal(grabbed_char);
        let ghost start = self@;
        let first = self.feed_char(ch);
        let ghost mid = self@;
        let raw = matches!(first, KeyDecision::ForwardRaw);
        if raw && p.keysym_commit && p.level_shifted && !is_control_char(ch) {
            let d = self.divert_char(ch);
            assert(keys::char_routed(start, mid, ch, first@));
            return d;
        }
        first
    }
}

impl<E: SyllableEngine> Daemon<E> {
    /// Decide a key of a grabbed keyboard.
    pub fn on_key_pressed(&mut self, p: &KeyPress) -> (v: KeyVerdict)
        ensures
            press_processed(old(self)@, final(self)@, *p, v.decision@, v.press_key),
    {
        let ghost start = self@;
        let on = self.enabled;
        self.prepare_press(p.repeat);
        let ghost ready = self@;
        let session = self.router.composer.is_some();
        let to = route_grabbed_key(on, self.router.modifiers, session, p.repeat, p.key, p.ch);
        proof {
            let idle = choose|i: bool|
                ready == #[trigger] press_prepared(start, i, p.repeat);
            keys::lemma_synced_keeps(start);
            keys::lemma_prepared_keeps(start, idle);
        }
        let v = self.deliver_press(p, to);
        proof {
            reveal(press_processed);
            let idle = choose|i: bool|
                ready == #[trigger] press_prepared(start, i, p.repeat);
            assert(press_arrived(
                press_prepared(start, idle, p.repeat),
                self@,
                *p,
                to,
                v.decision@,
                v.press_key,
            ));
        }
        v
    }

    fn prepare_press(&mut self, repeat: bool)
        ensures
            exists|idle: bool|
                final(self)@ == #[trigger] press_prepared(old(self)@, idle, repeat),
    {
        let ghost start = self@;
        if repeat {
            self.sync_config();
            assert(self@ == press_prepared(start, false, repeat));
        } else {
            let _ = self.prepare_key();
            proof {
                let idle = choose|i: bool| self@ == #[trigger] keys::key_prepared(start, i);
                assert(self@ == press_prepared(start, idle, repeat));
            }
        }
    }

    fn deliver_press(&mut self, p: &KeyPress, to: Destination) -> (v: KeyVerdict)
        ensures
            press_arrived(old(self)@, final(self)@, *p, to, v.decision@, v.press_key),
    {
        reveal(press_arrived);
        match to {
            Destination::Shortcut | Destination::Navigation => {
                // A repetition already ended the word when the key went down.
                if !p.repeat {
                    self.router.end_word();
                }
                KeyVerdict { decision: KeyDecision::Consumed, press_key: true }
            },
            Destination::Swallow => {
                KeyVerdict { decision: KeyDecision::Consumed, press_key: false }
            },
            Destination::Backspace => {
                let decision = self.router.feed_backspace();
                KeyVerdict { decision, press_key: false }
            },
            Destination::Character(c) => {
                self.router.mark_action();
                let decision = self.router.feed_grabbed_char(p, c);
                KeyVerdict { decision, press_key: false }
            },
            Destination::Other => {
                self.router.mark_action();
                KeyVerdict { decision: KeyDecision::ForwardRaw, press_key: false }
            },
            _ => KeyVerdict { decision: KeyDecision::ForwardRaw, press_key: false },
        }
    }

    /// Whether the client of the session applies committed strings. Where it does not,
    /// the sink that is handed to [`apply_pending`](Self::apply_pending) has to offer
    /// another way for the text, as keysyms. Without a session nothing is known against
    /// committed strings.
    pub fn commit_string_functional(&self) -> (b: bool)
        ensures
            b == match self@.router.session {
                Some(s) => s.commit_string_functional,
                None => true,
            },
    {
        match &self.router.composer {
            Some(w) => w.commit_string_functional,
            None => true,
        }
    }

    /// Deliver an edit.
    pub fn apply_pending<S: OutputSink>(
        &mut self,
        backspaces: usize,
        commit: &str,
        serial: u32,
        time: u32,
        sink: &mut S,
    )
        ensures
            old(sink).sound() ==> final(sink).sound(),
            final(sink).channels() == old(sink).channels(),
            final(self)@ == handler::with_session(old(self)@, final(self)@.router.session),
            match old(self)@.router.session {
                None => final(self)@ == old(self)@ && final(sink).log() == old(sink).log(),
                Some(s) => {
                    &&& final(self)@.router.session is Some
                    &&& final(self)@.router.session->0 == delivery::delivered(
                        s,
                        backspaces,
                        commit@,
                    )
                    &&& final(sink).log() == old(sink).log() + delivery::delivery(
                        old(sink).channels(),
                        s,
                        backspaces,
                        commit@,
                        serial,
                        time,
                    )
                },
            },
    {
        match &mut self.router.composer {
            None => {},
            Some(w) => {
                w.apply_to_sink(backspaces, commit, serial, time, sink);
            },
        }
    }

    /// The held modifiers changed.
    pub fn on_modifiers(&mut self, m: ModifierState)
        ensures
            final(self)@ == (Hub {
                router: modifiers_noted(old(self)@.router, m),
                ..old(self)@
            }),
    {
        self.router.modifiers = m;
        match &mut self.router.composer {
            None => {},
            Some(w) => {
                w.set_modifiers(m);
            },
        }
    }
}

/// The routing state once the held modifiers changed.
pub open spec fn modifiers_noted(r: Route, m: ModifierState) -> Route {
    Route {
        modifiers: m,
        session: match r.session {
            Some(s) => Some(session::modified(s, m)),
            None => None,
        },
        ..r
    }
}

} // verus!
