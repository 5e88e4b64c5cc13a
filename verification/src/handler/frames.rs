//! Frames of text-input clients, and edits for IBus.
use vstd::prelude::*;

use crate::composer::delivery;
use crate::composer::edit_model;
use crate::composer::frames;
use crate::composer::frames::Frame;
use crate::composer::session;
use crate::composer::session::Session;
use crate::composer::{ByteCursor, CharCursor, Composer, Liveness, SURROUNDING_DEAD_STRIKE_LIMIT};
use crate::config;
use crate::edit;
use crate::edit::capability::{detect_method, CapabilityProbe, PURPOSE_TERMINAL};
use crate::edit::{BackspaceMethod, DeleteUnit, OutputSink};
use crate::engine::SyllableEngine;
use crate::handler;
use crate::handler::focus;
use crate::handler::{Daemon, Hub, Route};

verus! {

/// What one frame of a text-input client says.
#[derive(Debug)]
pub struct FrameSnapshot {
    pub activate: bool,
    pub deactivate: bool,
    /// Text, and cursor and anchor in bytes.
    pub surrounding_text: Option<(String, u32, u32)>,
    pub purpose: u32,
    pub app_id: Option<String>,
    pub is_xwayland: bool,
}

/// The tier of a text input with this `purpose`, which has sent its surrounding
/// text or not.
pub open spec fn tier_for(
    purpose: u32,
    seen: bool,
    terminal: Option<BackspaceMethod>,
) -> BackspaceMethod {
    if purpose == PURPOSE_TERMINAL {
        match terminal {
            Some(forced) => forced,
            None => BackspaceMethod::ForwardKey,
        }
    } else if seen {
        BackspaceMethod::SurroundingText
    } else {
        BackspaceMethod::ForwardKey
    }
}

/// The session once a frame was looked at for signs of life. A client whose
/// surrounding text is dead ignores deletes, and committed strings as well: its
/// deletes go out as Backspace keys from now on.
#[verifier::opaque]
pub open spec fn liveness_noted(s: Session, text: Seq<char>, cursor: u32) -> Session {
    if session::tier(s) != BackspaceMethod::SurroundingText {
        s
    } else {
        let strikes = session::strikes_after(s, text, cursor);
        let n = Session { liveness: Liveness { dead_strikes: strikes, ..s.liveness }, ..s };
        if session::dead_frame(s, text, cursor) && strikes >= SURROUNDING_DEAD_STRIKE_LIMIT {
            Session {
                commit_string_functional: false,
                ..session::tier_switched(n, BackspaceMethod::ForwardKey)
            }
        } else {
            n
        }
    }
}

/// A frame that only repeats what is known already.
pub open spec fn repeats(s: Session, f: Frame) -> bool {
    s.firefox.expected_echo is None && edit_model::duplicate(s.edit, f.text, f.cursor, f.anchor)
}

/// The session with the tier that its first surrounding text earns it. Some
/// clients send none when they are activated, only with the first key.
#[verifier::opaque]
pub open spec fn upgraded(
    s: Session,
    purpose: u32,
    terminal: Option<BackspaceMethod>,
) -> Session {
    if session::tier(s) == BackspaceMethod::ForwardKey && tier_for(purpose, true, terminal)
        == BackspaceMethod::SurroundingText {
        session::tier_switched(s, BackspaceMethod::SurroundingText)
    } else {
        s
    }
}

/// `after` is the session once a frame with surrounding text came in.
#[verifier::opaque]
pub open spec fn text_seen(
    s: Session,
    after: Session,
    f: Frame,
    activate: bool,
    deactivate: bool,
    purpose: u32,
    terminal: Option<BackspaceMethod>,
) -> bool {
    let n = if activate {
        s
    } else {
        liveness_noted(s, f.text, f.cursor)
    };
    if !activate && !deactivate && repeats(n, f) {
        after == n
    } else {
        let u = if activate {
            n
        } else {
            upgraded(n, purpose, terminal)
        };
        taken_over(u, after, f, activate)
    }
}

/// `after` is the session once a frame is taken in: soon after an action, which only
/// the clock knows, or not.
pub open spec fn taken_over(s: Session, after: Session, f: Frame, force: bool) -> bool {
    exists|recent: bool|
        (recent ==> s.acted) && after == (#[trigger] frames::frame_taken(s, f, force, recent)).0
}

impl<E: SyllableEngine> Composer<E> {
    /// Look at a frame for signs of life.
    fn note_liveness(&mut self, text: &str, cursor: u32)
        ensures
            final(self).stamps() == old(self).stamps(),
            final(self)@ == liveness_noted(old(self)@, text@, cursor),
    {
        reveal(liveness_noted);
        if self.method() == BackspaceMethod::SurroundingText && self.note_surrounding_liveness(
            text,
            cursor,
        ) {
            self.set_method(BackspaceMethod::ForwardKey);
            self.commit_string_functional = false;
        }
    }

    fn upgrade(&mut self, purpose: u32, terminal: Option<BackspaceMethod>)
        ensures
            final(self).stamps() == old(self).stamps(),
            final(self)@ == upgraded(old(self)@, purpose, terminal),
    {
        reveal(upgraded);
        if self.method() == BackspaceMethod::ForwardKey {
            let probe = CapabilityProbe {
                purpose,
                surrounding_text_seen: true,
                terminal_override: terminal,
            };
            let better = detect_method(&probe);
            if better == BackspaceMethod::SurroundingText {
                self.set_method(better);
            }
        }
    }

    /// Take in a frame with surrounding text.
    fn see_text(
        &mut self,
        text: &str,
        cursor: u32,
        anchor: u32,
        activate: bool,
        deactivate: bool,
        purpose: u32,
        terminal: Option<BackspaceMethod>,
    )
        ensures
            final(self).stamps() == old(self).stamps(),
            text_seen(
                old(self)@,
                final(self)@,
                (Frame { text: text@, cursor, anchor }),
                activate,
                deactivate,
                purpose,
                terminal,
            ),
    {
        reveal(text_seen);
        if !activate {
            // Every frame of a dead client is the same, so this comes before
            // repetitions are dropped.
            self.note_liveness(text, cursor);
        }
        if self.should_skip_surrounding_frame(text, cursor, anchor, activate, deactivate) {
            return;
        }
        if !activate {
            self.upgrade(purpose, terminal);
        }
        let _ = self.observe_surrounding_bytes(
            text,
            ByteCursor(cursor),
            ByteCursor(anchor),
            activate,
        );
    }
}

/// The routing state once a frame's activation or deactivation took effect. A real
/// activation replaces a session of our own making.
#[verifier::opaque]
pub open spec fn turned(h: Hub, f: FrameSnapshot) -> Route {
    let r = if f.activate && h.router.synthetic_active {
        focus::cleared(h.router)
    } else {
        h.router
    };
    if f.activate && !r.current_active {
        Route {
            current_active: true,
            focused_app_id: config::opt_text(f.app_id),
            session: Some(
                focus::new_session(
                    r.kind,
                    h.settings,
                    r.modifiers,
                    tier_for(f.purpose, f.surrounding_text is Some, h.terminal_override),
                ),
            ),
            ..r
        }
    } else if f.deactivate && r.current_active {
        Route { current_active: false, session: None, focused_app_id: None, ..r }
    } else {
        r
    }
}

/// A frame with this activation starts a session.
pub open spec fn starts(r: Route, activate: bool) -> bool {
    activate && (r.synthetic_active || !r.current_active)
}

/// A frame with this activation and deactivation ends a session.
pub open spec fn ends(r: Route, activate: bool, deactivate: bool) -> bool {
    deactivate && r.current_active && !(activate && r.synthetic_active)
}

/// `after` is the session once the rest of a frame came in.
#[verifier::opaque]
pub open spec fn frame_seen(
    s: Session,
    after: Session,
    f: FrameSnapshot,
    activate: bool,
    deactivate: bool,
    terminal: Option<BackspaceMethod>,
) -> bool {
    match f.surrounding_text {
        Some((text, cursor, anchor)) => text_seen(
            s,
            after,
            Frame { text: text@, cursor, anchor },
            activate,
            deactivate,
            f.purpose,
            terminal,
        ),
        None => after == if activate || deactivate {
            s
        } else {
            Session { edit: edit_model::recorded(s.edit, Seq::empty(), 0, 0), ..s }
        },
    }
}

/// `after` is the daemon once a frame came in, its settings up to date.
#[verifier::opaque]
pub open spec fn frame_done(h: Hub, after: Hub, f: FrameSnapshot) -> bool {
    let r = turned(h, f);
    match r.session {
        None => after == (Hub { router: r, ..h }),
        Some(s) => {
            &&& after.router.session is Some
            &&& after == (Hub { router: Route { session: after.router.session, ..r }, ..h })
            &&& frame_seen(
                s,
                after.router.session->0,
                f,
                starts(h.router, f.activate),
                ends(h.router, f.activate, f.deactivate),
                h.terminal_override,
            )
        },
    }
}

fn clone_text(s: &Option<String>) -> (r: Option<String>)
    ensures
        config::opt_text(r) == config::opt_text(*s),
{
    match s {
        Some(s) => Some(s.as_str().to_owned()),
        None => None,
    }
}

impl<E: SyllableEngine> Daemon<E> {
    /// The tier for a new session.
    pub fn detect_capability(&self, frame: &FrameSnapshot) -> (m: BackspaceMethod)
        ensures
            m == tier_for(
                frame.purpose,
                frame.surrounding_text is Some,
                self@.terminal_override,
            ),
    {
        let probe = CapabilityProbe {
            purpose: frame.purpose,
            surrounding_text_seen: frame.surrounding_text.is_some(),
            terminal_override: self.terminal_override,
        };
        detect_method(&probe)
    }

    /// Whether a frame will start a session, so that the focused window is worth
    /// asking for.
    pub fn will_activate(&self, activate: bool) -> (b: bool)
        ensures
            b == starts(self@.router, activate),
    {
        activate && (self.router.synthetic_active || !self.router.current_active)
    }

    /// Whether a frame will end a session.
    pub fn will_deactivate(&self, activate: bool, deactivate: bool) -> (b: bool)
        ensures
            b == ends(self@.router, activate, deactivate),
    {
        deactivate && self.router.current_active && !(activate && self.router.synthetic_active)
    }

    /// Start or end a session as the frame says.
    fn turn(&mut self, frame: &FrameSnapshot)
        ensures
            final(self)@ == (Hub { router: turned(old(self)@, *frame), ..old(self)@ }),
    {
        reveal(turned);
        if frame.activate && self.router.synthetic_active {
            self.clear_session();
        }
        if frame.activate && !self.router.current_active {
            let method = self.detect_capability(frame);
            let c = self.new_composer(method);
            self.router.current_active = true;
            self.router.focused_app_id = clone_text(&frame.app_id);
            self.router.composer = Some(c);
        } else if frame.deactivate && self.router.current_active {
            self.router.current_active = false;
            self.router.composer = None;
            self.router.focused_app_id = None;
        }
    }

    /// Take in a frame.
    pub fn on_done_frame(&mut self, frame: &FrameSnapshot)
        ensures
            frame_done(handler::config_synced(old(self)@), final(self)@, *frame),
    {
        self.sync_config();
        self.finish_frame(frame);
    }

    fn finish_frame(&mut self, frame: &FrameSnapshot)
        ensures
            frame_done(old(self)@, final(self)@, *frame),
    {
        reveal(frame_done);
        let activate = self.will_activate(frame.activate);
        let deactivate = self.will_deactivate(frame.activate, frame.deactivate);
        self.turn(frame);
        let terminal = self.terminal_override;
        match &mut self.router.composer {
            None => {},
            Some(w) => {
                w.see_frame(frame, activate, deactivate, terminal);
            },
        }
    }
}

impl<E: SyllableEngine> Composer<E> {
    fn see_frame(
        &mut self,
        frame: &FrameSnapshot,
        activate: bool,
        deactivate: bool,
        terminal: Option<BackspaceMethod>,
    )
        ensures
            final(self).stamps() == old(self).stamps(),
            frame_seen(old(self)@, final(self)@, *frame, activate, deactivate, terminal),
    {
        reveal(frame_seen);
        match &frame.surrounding_text {
            Some((text, cursor, anchor)) => {
                self.see_text(
                    text.as_str(),
                    *cursor,
                    *anchor,
                    activate,
                    deactivate,
                    frame.purpose,
                    terminal,
                );
            },
            None => {
                if !activate && !deactivate {
                    self.clear_prev_surrounding();
                }
            },
        }
    }
}

/// The session once IBus has reported its surrounding text: the client answers.
#[verifier::opaque]
pub open spec fn report_noted(s: Session, text: Seq<char>, cursor: u32) -> Session {
    liveness_noted(
        Session { liveness: Liveness { ibus: s.liveness.ibus.seen(), ..s.liveness }, ..s },
        text,
        cursor,
    )
}

/// `after` is the session once IBus reported its surrounding text, with cursor and
/// anchor in characters.
#[verifier::opaque]
pub open spec fn reported(
    s: Session,
    after: Session,
    text: Seq<char>,
    cursor: u32,
    anchor: u32,
) -> bool {
    let n = report_noted(s, text, cursor);
    if repeats(n, Frame { text, cursor, anchor }) {
        after == n
    } else {
        taken_over(n, after, frames::char_frame(text, cursor, anchor), false)
    }
}

/// The session once it is known whether its deletes work: a correction without an
/// echo means that they do not.
#[verifier::opaque]
pub open spec fn correction_noted(s: Session, backspaces: usize) -> Session {
    if backspaces == 0 || session::tier(s) != BackspaceMethod::SurroundingText {
        s
    } else {
        let n = Session {
            liveness: Liveness { ibus: s.liveness.ibus.corrected(), ..s.liveness },
            ..s
        };
        if s.liveness.ibus.surrounding_saw_correction
            && !s.liveness.ibus.surrounding_echo_since_correction {
            session::tier_switched(n, BackspaceMethod::ForwardKey)
        } else {
            n
        }
    }
}

/// The session once an edit went out through its own tier.
#[verifier::opaque]
pub open spec fn tier_applied(s: Session, backspaces: usize, commit: Seq<char>) -> Session {
    Session {
        edit: edit_model::with_shadow(
            s.edit,
            edit::tier_shadow(session::tier(s), s.edit.strategy.shadow, backspaces, commit),
        ),
        ..s
    }
}

/// What an edit emits through the session's own tier, into a sink that types `ch`.
#[verifier::opaque]
pub open spec fn tier_delivery(
    ch: edit::Channels,
    s: Session,
    backspaces: usize,
    commit: Seq<char>,
    time: u32,
) -> Seq<edit::SinkCall> {
    edit::tier_calls(
        ch,
        session::tier(s),
        s.edit.strategy.shadow,
        backspaces,
        commit,
        0,
        time,
        DeleteUnit::Bytes,
    )
}

impl<E: SyllableEngine> Composer<E> {
    fn note_report(&mut self, text: &str, cursor: u32)
        ensures
            final(self).stamps() == old(self).stamps(),
            final(self)@ == report_noted(old(self)@, text@, cursor),
    {
        reveal(report_noted);
        self.mark_surrounding_frame_seen();
        self.note_liveness(text, cursor);
    }

    fn see_report(&mut self, text: &str, cursor: u32, anchor: u32)
        ensures
            final(self).stamps() == old(self).stamps(),
            reported(old(self)@, final(self)@, text@, cursor, anchor),
    {
        reveal(reported);
        self.note_report(text, cursor);
        if self.should_skip_surrounding_frame(text, cursor, anchor, false, false) {
            return;
        }
        self.observe_surrounding_chars(text, CharCursor(cursor), CharCursor(anchor));
    }

    fn note_correction(&mut self, backspaces: usize)
        ensures
            final(self).stamps() == old(self).stamps(),
            final(self)@ == correction_noted(old(self)@, backspaces),
    {
        reveal(correction_noted);
        if backspaces > 0 && self.method() == BackspaceMethod::SurroundingText
            && self.note_surrounding_correction() {
            self.set_method(BackspaceMethod::ForwardKey);
        }
    }

    fn deliver<S: OutputSink>(&mut self, backspaces: usize, commit: &str, time: u32, sink: &mut S)
        ensures
            final(self).stamps() == old(self).stamps(),
            old(sink).sound() ==> final(sink).sound(),
            final(sink).channels() == old(sink).channels(),
            final(self)@ == delivery::refreshed(
                tier_applied(old(self)@, backspaces, commit@),
                backspaces,
            ),
            final(sink).log() == old(sink).log() + tier_delivery(
                old(sink).channels(),
                old(self)@,
                backspaces,
                commit@,
                time,
            ),
    {
        reveal(tier_applied);
        reveal(tier_delivery);
        self.apply(backspaces, commit, time, sink);
    }
}

impl<E: SyllableEngine> Daemon<E> {
    /// IBus reports the text around the cursor; cursor and anchor in characters.
    pub fn observe_surrounding(&mut self, text: &str, cursor: u32, anchor: u32)
        ensures
            final(self)@ == handler::with_session(old(self)@, final(self)@.router.session),
            match old(self)@.router.session {
                None => final(self)@ == old(self)@,
                Some(s) => {
                    &&& final(self)@.router.session is Some
                    &&& reported(s, final(self)@.router.session->0, text@, cursor, anchor)
                },
            },
    {
        match &mut self.router.composer {
            None => {},
            Some(w) => {
                w.see_report(text, cursor, anchor);
            },
        }
    }

    /// Deliver an edit through IBus. A client that never echoes corrections does
    /// not carry out deletes, and gets Backspace keys instead.
    pub fn apply_with_sink<S: OutputSink>(
        &mut self,
        backspaces: usize,
        commit: &str,
        time: u32,
        sink: &mut S,
    )
        ensures
            old(sink).sound() ==> final(sink).sound(),
            final(sink).channels() == old(sink).channels(),
            final(self)@ == handler::with_session(old(self)@, final(self)@.router.session),
            match old(self)@.router.session {
                None => final(self)@ == old(self)@ && final(sink).log() == old(sink).log(),
                Some(s) => {
                    let n = correction_noted(s, backspaces);
                    &&& final(self)@.router.session is Some
                    &&& final(self)@.router.session->0 == delivery::refreshed(
                        tier_applied(n, backspaces, commit@),
                        backspaces,
                    )
                    &&& final(sink).log() == old(sink).log() + tier_delivery(
                        old(sink).channels(),
                        n,
                        backspaces,
                        commit@,
                        time,
                    )
                },
            },
    {
        match &mut self.router.composer {
            None => {},
            Some(w) => {
                w.note_correction(backspaces);
                w.deliver(backspaces, commit, time, sink);
            },
        }
    }
}

} // verus!
