//! The engine's methods.
use vstd::prelude::*;

use crate::config;
use crate::edit;
use crate::edit::modifiers::ModifierState;
use crate::edit::{BackspaceMethod, KeyDecision, SinkCall};
use crate::ibus::keyval;
use crate::ibus::keyval::{
    ibus_state_to_modifiers,
    keyval_to_char,
    keyval_to_evdev,
    IBUS_RELEASE_MASK,
};
use crate::ibus::sink;
use crate::ibus::sink::{Emitted, IbusSink, PendingDelete, PendingForward};
use crate::ibus::value;
use crate::ibus::value::{extract_ibus_text_string, IbusValue};
use crate::strings;

verus! {

/// The client sends its surrounding text.
pub const IBUS_CAP_SURROUNDING_TEXT: u32 = 0x20;

/// What the composition is asked or told.
pub enum IbusCall {
    Key { evdev: u32, ch: Option<char>, answer: edit::Decision },
    /// An edit is carried out, by the operations `ops`.
    Apply { backspaces: usize, commit: Seq<char>, time: u32, ops: Seq<SinkCall> },
    Surrounding { text: Seq<char>, cursor: u32, anchor: u32 },
    Modifiers(ModifierState),
    Activate { method: BackspaceMethod, chars_for_delete: bool },
    Deactivate,
    Method(BackspaceMethod),
    FullReset,
}

/// The composition is asked about a key.
pub open spec fn key_call(evdev: u32, ch: Option<char>, answer: edit::Decision) -> IbusCall {
    IbusCall::Key { evdev, ch, answer }
}

/// The composition behind the engine. `heard` is the sequence of calls so far.
pub trait IbusHandler {
    open spec fn heard(&self) -> Seq<IbusCall> {
        Seq::empty()
    }

    fn process_key(&mut self, evdev: u32, ch: Option<char>) -> (d: KeyDecision)
        ensures
            final(self).heard() == old(self).heard().push(key_call(evdev, ch, d@)),
    ;

    fn apply_with_sink(&mut self, backspaces: usize, commit: &str, time: u32, sink: &mut IbusSink)
        requires
            old(sink).calls@.len() == 0,
            sink::faithful(*old(sink)),
        ensures
            final(self).heard() == old(self).heard().push(
                IbusCall::Apply { backspaces, commit: commit@, time, ops: final(sink).calls@ },
            ),
            sink::faithful(*final(sink)),
    ;

    fn observe_surrounding(&mut self, text: &str, cursor: u32, anchor: u32)
        ensures
            final(self).heard() == old(self).heard().push(
                IbusCall::Surrounding { text: text@, cursor, anchor },
            ),
    ;

    fn set_modifiers(&mut self, m: ModifierState)
        ensures
            final(self).heard() == old(self).heard().push(IbusCall::Modifiers(m)),
    ;

    fn activate_ibus(&mut self, method: BackspaceMethod, chars_for_delete: bool)
        ensures
            final(self).heard() == old(self).heard().push(
                IbusCall::Activate { method, chars_for_delete },
            ),
    ;

    fn deactivate_ibus(&mut self)
        ensures
            final(self).heard() == old(self).heard().push(IbusCall::Deactivate),
    ;

    /// The client can do more, or less, than it could.
    fn update_method(&mut self, method: BackspaceMethod)
        ensures
            final(self).heard() == old(self).heard().push(IbusCall::Method(method)),
    ;

    fn full_reset(&mut self)
        ensures
            final(self).heard() == old(self).heard().push(IbusCall::FullReset),
    ;
}

/// A signal to the client.
#[derive(Debug)]
pub enum Signal {
    DeleteSurroundingText(PendingDelete),
    ForwardKeyEvent(PendingForward),
    CommitText(String),
}

/// [`Signal`] as values.
pub enum Sent {
    DeleteSurroundingText(PendingDelete),
    ForwardKeyEvent(PendingForward),
    CommitText(Seq<char>),
}

impl View for Signal {
    type V = Sent;

    open spec fn view(&self) -> Sent {
        match *self {
            Signal::DeleteSurroundingText(d) => Sent::DeleteSurroundingText(d),
            Signal::ForwardKeyEvent(f) => Sent::ForwardKeyEvent(f),
            Signal::CommitText(t) => Sent::CommitText(t@),
        }
    }
}

/// Signals as values.
pub open spec fn signals_view(v: Seq<Signal>) -> Seq<Sent> {
    v.map_values(|s: Signal| s@)
}

/// What was emitted, as signals: everything that deletes comes before the text, or
/// the text would be deleted again.
pub open spec fn signals_of(e: Emitted) -> Seq<Sent> {
    e.deletes.map_values(|d: PendingDelete| Sent::DeleteSurroundingText(d))
        + e.forwards.map_values(|f: PendingForward| Sent::ForwardKeyEvent(f))
        + e.commits.map_values(|t: Seq<char>| Sent::CommitText(t))
}

/// The signals for what a sink holds, in the order in which they are sent.
pub fn drain(sink: IbusSink) -> (v: Vec<Signal>)
    ensures
        signals_view(v@) == signals_of(sink@),
{
    let mut v: Vec<Signal> = Vec::new();
    let ghost deletes = sink@.deletes.map_values(
        |d: PendingDelete| Sent::DeleteSurroundingText(d),
    );
    let ghost forwards = sink@.forwards.map_values(|f: PendingForward| Sent::ForwardKeyEvent(f));
    let ghost commits = sink@.commits.map_values(|t: Seq<char>| Sent::CommitText(t));
    assert(signals_view(v@) =~= deletes.take(0));
    for i in 0..sink.deletes.len()
        invariant
            deletes == sink@.deletes.map_values(
                |d: PendingDelete| Sent::DeleteSurroundingText(d),
            ),
            signals_view(v@) == deletes.take(i as int),
    {
        let ghost before = signals_view(v@);
        let s = Signal::DeleteSurroundingText(sink.deletes[i]);
        v.push(s);
        assert(signals_view(v@) =~= before.push(s@));
        assert(deletes.take(i + 1) =~= deletes.take(i as int).push(deletes[i as int]));
    }
    assert(deletes.take(deletes.len() as int) =~= deletes);
    assert(signals_view(v@) =~= deletes + forwards.take(0));
    for i in 0..sink.forwards.len()
        invariant
            forwards == sink@.forwards.map_values(|f: PendingForward| Sent::ForwardKeyEvent(f)),
            signals_view(v@) == deletes + forwards.take(i as int),
    {
        let ghost before = signals_view(v@);
        let s = Signal::ForwardKeyEvent(sink.forwards[i]);
        v.push(s);
        assert(signals_view(v@) =~= before.push(s@));
        assert(forwards.take(i + 1) =~= forwards.take(i as int).push(forwards[i as int]));
        assert(signals_view(v@) =~= deletes + forwards.take(i + 1));
    }
    assert(forwards.take(forwards.len() as int) =~= forwards);
    assert(signals_view(v@) =~= deletes + forwards + commits.take(0));
    for i in 0..sink.commits.len()
        invariant
            commits == sink@.commits.map_values(|t: Seq<char>| Sent::CommitText(t)),
            signals_view(v@) == deletes + forwards + commits.take(i as int),
    {
        let ghost before = signals_view(v@);
        let text = sink.commits[i].as_str().to_owned();
        let s = Signal::CommitText(text);
        v.push(s);
        assert(signals_view(v@) =~= before.push(s@));
        assert(sink@.commits[i as int] == text@);
        assert(commits.take(i + 1) =~= commits.take(i as int).push(commits[i as int]));
        assert(signals_view(v@) =~= deletes + forwards + commits.take(i + 1));
    }
    assert(commits.take(commits.len() as int) =~= commits);
    v
}

/// The tier for a client that sends its surrounding text or not.
pub open spec fn capable_tier(has_surrounding: bool) -> BackspaceMethod {
    if has_surrounding {
        BackspaceMethod::SurroundingText
    } else {
        BackspaceMethod::ForwardKey
    }
}

pub fn method_for_capability(has_surrounding: bool) -> (m: BackspaceMethod)
    ensures
        m == capable_tier(has_surrounding),
{
    if has_surrounding {
        BackspaceMethod::SurroundingText
    } else {
        BackspaceMethod::ForwardKey
    }
}

/// State of the engine.
pub struct EngineState<D> {
    pub daemon: D,
    pub has_surrounding: bool,
    /// The focused client, in lower case.
    pub client_app_id: Option<String>,
    /// Clients that measure deletions in characters.
    pub chars_delete_apps: Vec<String>,
}

/// The client is one of those that measure deletions in characters.
pub open spec fn in_chars(client: Option<Seq<char>>, apps: Seq<Seq<char>>) -> bool {
    match client {
        Some(id) => exists|i: int|
            0 <= i < apps.len() && strings::lowered(#[trigger] apps[i]) == strings::lowered(id),
        None => false,
    }
}

/// The answer to a key event.
#[derive(Debug)]
pub struct KeyReply {
    /// The engine took the key.
    pub handled: bool,
    /// The signals to send before the answer.
    pub signals: Vec<Signal>,
}

/// The signals that an answer of the composition leads to, where `ops` carry it out.
pub open spec fn answer_signals(d: edit::Decision, ops: Seq<SinkCall>) -> Seq<Sent> {
    match d {
        edit::Decision::Apply { .. } => signals_of(sink::emitted(ops)),
        _ => Seq::empty(),
    }
}

/// The calls that an answer of the composition leads to, where `ops` carry it out.
pub open spec fn answer_calls(d: edit::Decision, ops: Seq<SinkCall>) -> Seq<IbusCall> {
    match d {
        edit::Decision::Apply { method, backspaces, commit } => {
            seq![IbusCall::Apply { backspaces, commit, time: 0, ops }]
        },
        _ => Seq::empty(),
    }
}

/// The engine takes every key but those that the composition lets through.
pub open spec fn takes(d: edit::Decision) -> bool {
    d != edit::Decision::ForwardRaw
}

impl<D: IbusHandler> EngineState<D> {
    /// Clients are expected to send their surrounding text until they say
    /// otherwise.
    pub fn new(daemon: D, chars_delete_apps: Vec<String>) -> (s: Self)
        ensures
            s.daemon == daemon,
            s.has_surrounding,
            s.client_app_id is None,
            s.chars_delete_apps == chars_delete_apps,
    {
        EngineState { daemon, has_surrounding: true, client_app_id: None, chars_delete_apps }
    }

    /// Whether the client measures deletions in characters.
    pub fn chars_for_delete(&self) -> (b: bool)
        ensures
            b == in_chars(
                config::opt_text(self.client_app_id),
                strings::texts(self.chars_delete_apps@),
            ),
    {
        let id = match &self.client_app_id {
            Some(id) => id,
            None => {
                return false;
            },
        };
        let ghost apps = strings::texts(self.chars_delete_apps@);
        for i in 0..self.chars_delete_apps.len()
            invariant
                apps == strings::texts(self.chars_delete_apps@),
                self.client_app_id == Some(*id),
                forall|j: int|
                    0 <= j < i ==> strings::lowered(#[trigger] apps[j]) != strings::lowered(id@),
        {
            assert(apps[i as int] == self.chars_delete_apps@[i as int]@);
            if strings::same_ignoring_case(self.chars_delete_apps[i].as_str(), id.as_str()) {
                return true;
            }
        }
        false
    }

    /// A key event. Releases are let through.
    pub fn process_key_event(&mut self, keyval: u32, keycode: u32, state: u32) -> (r: KeyReply)
        ensures
            state & IBUS_RELEASE_MASK != 0 ==> {
                &&& !r.handled && r.signals@.len() == 0
                &&& *final(self) == *old(self)
            },
            state & IBUS_RELEASE_MASK == 0 ==> exists|
                ch: Option<char>,
                d: edit::Decision,
                ops: Seq<SinkCall>,
            |
                {
                    &&& keyval::types(keyval, ch)
                    &&& final(self).daemon.heard() == old(self).daemon.heard() + seq![
                        IbusCall::Modifiers(keyval::modifiers_of(state)),
                        #[trigger] key_call(keyval::evdev_code(keyval, keycode), ch, d),
                    ] + answer_calls(d, ops)
                    &&& r.handled == takes(d)
                    &&& signals_view(r.signals@) == #[trigger] answer_signals(d, ops)
                },
            final(self).has_surrounding == old(self).has_surrounding,
            final(self).client_app_id == old(self).client_app_id,
            final(self).chars_delete_apps == old(self).chars_delete_apps,
    {
        if state & IBUS_RELEASE_MASK != 0 {
            return KeyReply { handled: false, signals: Vec::new() };
        }
        let ghost heard = self.daemon.heard();
        let evdev = keyval_to_evdev(keyval, keycode);
        let ch = keyval_to_char(keyval);
        let mods = ibus_state_to_modifiers(state);
        self.daemon.set_modifiers(mods);
        let d = self.daemon.process_key(evdev, ch);
        let ghost answer = d@;
        let ghost asked = heard + seq![
            IbusCall::Modifiers(keyval::modifiers_of(state)),
            key_call(evdev, ch, answer),
        ];
        assert(self.daemon.heard() =~= asked);
        match d {
            KeyDecision::Apply { method: _, backspaces, commit } => {
                let mut out = IbusSink::new();
                self.daemon.apply_with_sink(backspaces, commit.as_str(), 0, &mut out);
                let ghost ops = out.calls@;
                let signals = drain(out);
                proof {
                    assert(self.daemon.heard() =~= asked + answer_calls(answer, ops));
                    assert(signals_view(signals@) == answer_signals(answer, ops));
                }
                KeyReply { handled: true, signals }
            },
            KeyDecision::ForwardRaw => {
                let signals: Vec<Signal> = Vec::new();
                proof {
                    assert(asked + answer_calls(answer, Seq::empty()) =~= asked);
                    assert(signals_view(signals@) =~= answer_signals(answer, Seq::empty()));
                }
                KeyReply { handled: false, signals }
            },
            KeyDecision::Consumed => {
                let signals: Vec<Signal> = Vec::new();
                proof {
                    assert(asked + answer_calls(answer, Seq::empty()) =~= asked);
                    assert(signals_view(signals@) =~= answer_signals(answer, Seq::empty()));
                }
                KeyReply { handled: true, signals }
            },
        }
    }

    /// A client is focused. Its name is empty when it is not known.
    pub fn focus_in(&mut self, client: &str)
        ensures
            config::opt_text(final(self).client_app_id) == if client@.len() == 0 {
                None
            } else {
                Some(strings::lowered(client@))
            },
            final(self).daemon.heard() == old(self).daemon.heard().push(
                IbusCall::Activate {
                    method: capable_tier(old(self).has_surrounding),
                    chars_for_delete: in_chars(
                        config::opt_text(final(self).client_app_id),
                        strings::texts(old(self).chars_delete_apps@),
                    ),
                },
            ),
            final(self).has_surrounding == old(self).has_surrounding,
            final(self).chars_delete_apps == old(self).chars_delete_apps,
    {
        self.client_app_id = if client.is_empty() {
            None
        } else {
            Some(strings::to_lower(client))
        };
        let chars = self.chars_for_delete();
        self.daemon.activate_ibus(method_for_capability(self.has_surrounding), chars);
    }

    /// The client lost the focus.
    pub fn focus_out(&mut self)
        ensures
            final(self).client_app_id is None,
            final(self).daemon.heard() == old(self).daemon.heard().push(IbusCall::Deactivate),
            final(self).has_surrounding == old(self).has_surrounding,
            final(self).chars_delete_apps == old(self).chars_delete_apps,
    {
        self.client_app_id = None;
        self.daemon.deactivate_ibus();
    }

    /// The client starts over.
    pub fn reset(&mut self)
        ensures
            final(self).daemon.heard() == old(self).daemon.heard().push(IbusCall::FullReset),
            final(self).has_surrounding == old(self).has_surrounding,
            final(self).client_app_id == old(self).client_app_id,
            final(self).chars_delete_apps == old(self).chars_delete_apps,
    {
        self.daemon.full_reset();
    }

    /// The engine is turned off.
    pub fn disable(&mut self)
        ensures
            final(self).daemon.heard() == old(self).daemon.heard().push(IbusCall::Deactivate),
            final(self).has_surrounding == old(self).has_surrounding,
            final(self).client_app_id == old(self).client_app_id,
            final(self).chars_delete_apps == old(self).chars_delete_apps,
    {
        self.daemon.deactivate_ibus();
    }

    /// The client says what it can do.
    pub fn set_capabilities(&mut self, caps: u32)
        ensures
            final(self).has_surrounding == (caps & IBUS_CAP_SURROUNDING_TEXT != 0),
            final(self).daemon.heard() == old(self).daemon.heard().push(
                IbusCall::Method(capable_tier(caps & IBUS_CAP_SURROUNDING_TEXT != 0)),
            ),
            final(self).client_app_id == old(self).client_app_id,
            final(self).chars_delete_apps == old(self).chars_delete_apps,
    {
        let has = caps & IBUS_CAP_SURROUNDING_TEXT != 0;
        self.has_surrounding = has;
        self.daemon.update_method(method_for_capability(has));
    }

    /// The client sends its surrounding text: proof that it can, whatever it said.
    /// A value without a text in it is ignored.
    pub fn set_surrounding_text(&mut self, text: &IbusValue, cursor: u32, anchor: u32)
        ensures
            match value::text_in(text@) {
                None => *final(self) == *old(self),
                Some(t) => {
                    &&& final(self).has_surrounding
                    &&& final(self).daemon.heard() == old(self).daemon.heard() + (if old(
                        self,
                    ).has_surrounding {
                        Seq::empty()
                    } else {
                        seq![IbusCall::Method(BackspaceMethod::SurroundingText)]
                    }) + seq![IbusCall::Surrounding { text: t, cursor, anchor }]
                },
            },
            final(self).client_app_id == old(self).client_app_id,
            final(self).chars_delete_apps == old(self).chars_delete_apps,
    {
        let ghost heard = self.daemon.heard();
        let had = self.has_surrounding;
        match extract_ibus_text_string(text) {
            None => {},
            Some(t) => {
                if !had {
                    self.has_surrounding = true;
                    self.daemon.update_method(BackspaceMethod::SurroundingText);
                }
                self.daemon.observe_surrounding(t.as_str(), cursor, anchor);
                assert(self.daemon.heard() =~= heard + (if had {
                    Seq::empty()
                } else {
                    seq![IbusCall::Method(BackspaceMethod::SurroundingText)]
                }) + seq![IbusCall::Surrounding { text: t@, cursor, anchor }]);
            },
        }
    }
}

} // verus!
