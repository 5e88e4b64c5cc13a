//! The daemon behind grabbed keyboards.
use vstd::prelude::*;

use crate::composer::session;
use crate::edit;
use crate::edit::KeyDecision;
use crate::engine::SyllableEngine;
use crate::evdev;
use crate::evdev::{EvdevHandler, HandlerCall};
use crate::handler;
use crate::handler::focus;
use crate::handler::keys;
use crate::handler::{Daemon, Hub};

verus! {

/// A daemon, and what it has heard from the keyboards.
pub struct EvdevSession<E: SyllableEngine> {
    pub daemon: Daemon<E>,
    pub calls: Ghost<Seq<HandlerCall>>,
}

impl<E: SyllableEngine> EvdevSession<E> {
    /// Start a session for grabbed keyboards.
    pub fn new(daemon: Daemon<E>) -> (s: Self)
        ensures
            s.calls@ == Seq::<HandlerCall>::empty(),
            s.daemon@ == focus::evdev_activated(daemon@),
    {
        let mut daemon = daemon;
        daemon.activate_evdev();
        EvdevSession { daemon, calls: Ghost(Seq::empty()) }
    }
}

/// The daemon before a key of a grabbed keyboard is fed: settings applied, and the
/// on/off state noticed.
pub open spec fn grab_prepared(h: Hub) -> Hub {
    handler::edge_synced(handler::config_synced(h))
}

/// While composition is off a key of a grabbed keyboard finds no word in progress: the
/// key that follows the turning off ends it.
pub proof fn law_grabbed_keys_pass_while_off(h: Hub)
    requires
        !h.enabled,
    ensures
        !grab_prepared(h).enabled,
        !grab_prepared(h).router.last_enabled,
        h.router.last_enabled ==> (grab_prepared(h).router.session matches Some(t)
            ==> session::shadow_of(t).len() == 0 && t.last_input_char is None),
{
    keys::lemma_synced_keeps(h);
    reveal(handler::config_synced);
    reveal(handler::route_reconfigured);
    reveal(handler::edge_synced);
}

impl<E: SyllableEngine> EvdevSession<E> {
    fn prepare(&mut self) -> (on: bool)
        ensures
            final(self).daemon@ == grab_prepared(old(self).daemon@),
            on == grab_prepared(old(self).daemon@).enabled,
            final(self).calls == old(self).calls,
    {
        reveal(handler::edge_synced);
        self.daemon.sync_config();
        self.daemon.sync_enabled_edge()
    }
}

impl<E: SyllableEngine> EvdevHandler for EvdevSession<E> {
    open spec fn heard(&self) -> Seq<HandlerCall> {
        self.calls@
    }

    /// While composition is off, keys go to the client as they are.
    fn handle_char(&mut self, code: u32, ch: char) -> (d: KeyDecision)
        ensures
            ({
                let h = grab_prepared(old(self).daemon@);
                final(self).daemon@ == keys::routed(h, final(self).daemon@.router) && if h.enabled {
                    keys::char_routed(h.router, final(self).daemon@.router, ch, d@)
                } else {
                    final(self).daemon@.router == h.router && d@ == edit::Decision::ForwardRaw
                }
            }),
    {
        let on = self.prepare();
        let d = if on {
            self.daemon.router.feed_char(ch)
        } else {
            KeyDecision::ForwardRaw
        };
        self.calls = Ghost(self.calls@.push(evdev::char_call(code, ch, d@)));
        d
    }

    /// While composition is off, keys go to the client as they are.
    fn handle_backspace(&mut self) -> (d: KeyDecision)
        ensures
            ({
                let h = grab_prepared(old(self).daemon@);
                final(self).daemon@ == keys::routed(h, final(self).daemon@.router) && if h.enabled {
                    keys::backspace_routed(h.router, final(self).daemon@.router, d@)
                } else {
                    final(self).daemon@.router == h.router && d@ == edit::Decision::ForwardRaw
                }
            }),
    {
        let on = self.prepare();
        let d = if on {
            self.daemon.router.feed_backspace()
        } else {
            KeyDecision::ForwardRaw
        };
        self.calls = Ghost(self.calls@.push(HandlerCall::Backspace { answer: d@ }));
        d
    }

    fn clear_session(&mut self)
        ensures
            final(self).daemon@ == (Hub {
                router: focus::cleared(old(self).daemon@.router),
                ..old(self).daemon@
            }),
    {
        self.daemon.clear_session();
        self.calls = Ghost(self.calls@.push(HandlerCall::ClearSession));
    }

    fn clear_last_input_char(&mut self)
        ensures
            final(self).daemon@ == focus::last_char_forgotten(old(self).daemon@),
    {
        self.daemon.clear_last_input_char();
        self.calls = Ghost(self.calls@.push(HandlerCall::ClearLastInputChar));
    }

    fn full_reset_window(&mut self)
        ensures
            final(self).daemon@ == focus::window_reset(old(self).daemon@),
    {
        self.daemon.full_reset_window();
        self.calls = Ghost(self.calls@.push(HandlerCall::FullReset));
    }

    fn check_idle_reset_window(&mut self)
        ensures
            exists|idle: bool|
                final(self).daemon@ == keys::routed(
                    old(self).daemon@,
                    #[trigger] keys::idle_noted(old(self).daemon@.router, idle),
                ),
    {
        self.daemon.check_idle_reset_window();
        self.calls = Ghost(self.calls@.push(HandlerCall::CheckIdle));
    }
}

} // verus!
