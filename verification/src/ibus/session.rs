//! The daemon behind the engine.
use vstd::prelude::*;

use crate::composer::delivery;
use crate::composer::session;
use crate::edit;
use crate::edit::modifiers::ModifierState;
use crate::edit::{BackspaceMethod, KeyDecision};
use crate::engine::SyllableEngine;
use crate::handler;
use crate::handler::focus;
use crate::handler::frames;
use crate::handler::grab;
use crate::handler::keys;
use crate::handler::{Daemon, Hub};
use crate::ibus::engine;
use crate::ibus::engine::{IbusCall, IbusHandler};
use crate::ibus::sink;
use crate::ibus::sink::IbusSink;

verus! {

/// A daemon, and what it has heard from the engine.
pub struct IbusSession<E: SyllableEngine> {
    pub daemon: Daemon<E>,
    /// Grabbed keyboards compose: keys are passed on.
    pub suspended: bool,
    pub calls: Ghost<Seq<IbusCall>>,
}

impl<E: SyllableEngine> IbusSession<E> {
    pub fn new(daemon: Daemon<E>) -> (s: Self)
        ensures
            s.daemon == daemon,
            !s.suspended,
            s.calls@ == Seq::<IbusCall>::empty(),
    {
        IbusSession { daemon, suspended: false, calls: Ghost(Seq::empty()) }
    }
}

impl<E: SyllableEngine> IbusHandler for IbusSession<E> {
    open spec fn heard(&self) -> Seq<IbusCall> {
        self.calls@
    }

    fn process_key(&mut self, evdev: u32, ch: Option<char>) -> (d: KeyDecision)
        ensures
            old(self).suspended ==> d@ == edit::Decision::ForwardRaw && final(self).daemon == old(
                self,
            ).daemon,
            !old(self).suspended ==> keys::key_processed(
                old(self).daemon@,
                final(self).daemon@,
                evdev,
                ch,
                d@,
            ),
            final(self).suspended == old(self).suspended,
    {
        let d = if self.suspended {
            KeyDecision::ForwardRaw
        } else {
            self.daemon.process_key(evdev, ch)
        };
        self.calls = Ghost(self.calls@.push(engine::key_call(evdev, ch, d@)));
        d
    }

    fn apply_with_sink(&mut self, backspaces: usize, commit: &str, time: u32, sink: &mut IbusSink)
        ensures
            final(self).daemon@ == handler::with_session(
                old(self).daemon@,
                final(self).daemon@.router.session,
            ),
            match old(self).daemon@.router.session {
                None => final(self).daemon@ == old(self).daemon@ && final(sink).calls@ == old(
                    sink,
                ).calls@,
                Some(s) => {
                    let n = frames::correction_noted(s, backspaces);
                    &&& final(self).daemon@.router.session is Some
                    &&& final(self).daemon@.router.session->0 == delivery::refreshed(
                        frames::tier_applied(n, backspaces, commit@),
                        backspaces,
                    )
                    &&& final(sink).calls@ == old(sink).calls@ + frames::tier_delivery(
                        sink::no_channels(),
                        n,
                        backspaces,
                        commit@,
                        time,
                    )
                },
            },
            final(self).suspended == old(self).suspended,
    {
        self.daemon.apply_with_sink(backspaces, commit, time, sink);
        self.calls =
        Ghost(
            self.calls@.push(
                IbusCall::Apply { backspaces, commit: commit@, time, ops: sink.calls@ },
            ),
        );
    }

    fn observe_surrounding(&mut self, text: &str, cursor: u32, anchor: u32)
        ensures
            final(self).daemon@ == handler::with_session(
                old(self).daemon@,
                final(self).daemon@.router.session,
            ),
            match old(self).daemon@.router.session {
                None => final(self).daemon@ == old(self).daemon@,
                Some(s) => {
                    &&& final(self).daemon@.router.session is Some
                    &&& frames::reported(
                        s,
                        final(self).daemon@.router.session->0,
                        text@,
                        cursor,
                        anchor,
                    )
                },
            },
            final(self).suspended == old(self).suspended,
    {
        self.daemon.observe_surrounding(text, cursor, anchor);
        self.calls =
        Ghost(self.calls@.push(IbusCall::Surrounding { text: text@, cursor, anchor }));
    }

    fn set_modifiers(&mut self, m: ModifierState)
        ensures
            final(self).daemon@ == (Hub {
                router: grab::modifiers_noted(old(self).daemon@.router, m),
                ..old(self).daemon@
            }),
            final(self).suspended == old(self).suspended,
    {
        self.daemon.on_modifiers(m);
        self.calls = Ghost(self.calls@.push(IbusCall::Modifiers(m)));
    }

    fn activate_ibus(&mut self, method: BackspaceMethod, chars_for_delete: bool)
        ensures
            final(self).daemon@ == focus::ibus_activated(old(self).daemon@, method),
            final(self).suspended == old(self).suspended,
    {
        self.daemon.activate_ibus(method);
        self.calls = Ghost(self.calls@.push(IbusCall::Activate { method, chars_for_delete }));
    }

    fn deactivate_ibus(&mut self)
        ensures
            final(self).daemon@ == focus::ibus_deactivated(old(self).daemon@),
            final(self).suspended == old(self).suspended,
    {
        self.daemon.deactivate_ibus();
        self.calls = Ghost(self.calls@.push(IbusCall::Deactivate));
    }

    fn update_method(&mut self, method: BackspaceMethod)
        ensures
            final(self).daemon@ == focus::ibus_method_updated(old(self).daemon@, method),
            final(self).suspended == old(self).suspended,
    {
        self.daemon.update_ibus_method(method);
        self.calls = Ghost(self.calls@.push(IbusCall::Method(method)));
    }

    fn full_reset(&mut self)
        ensures
            final(self).daemon@ == focus::window_reset(old(self).daemon@),
            final(self).suspended == old(self).suspended,
    {
        self.daemon.full_reset_window();
        self.calls = Ghost(self.calls@.push(IbusCall::FullReset));
    }
}

} // verus!
