//! The composition brain of one text input.
//!
//! A [`Composer`] owns the engine, the shadow and the reseed gate. Each
//! transport turns its wire events into calls on it.
//!
//! The engine runs continuously: every key builds on the state that the keys
//! before it left. It is seeded from text on screen only when a word starts
//! fresh, and only through the render gate of
//! [`EngineState::feed_context_gated`]. An edit that rests on a frame the client
//! sent, rather than on our own keystrokes, may describe a stale cursor. Such a
//! key is forwarded raw, and its edit waits until a frame proves where the key
//! landed.
use vstd::prelude::*;

use std::time::Instant;

use crate::clock;
use crate::composer::edit_model::EditModel;
use crate::composer::session::{Pending, Session, Stash};
use crate::edit::modifiers::ModifierState;
use crate::edit::BackspaceMethod;
use crate::engine;
use crate::engine::{EngineState, InputMethod, SyllableEngine};
use crate::quirks::firefox::FirefoxContenteditableQuirk;
use crate::quirks::ibus::IbusSurroundingQuirk;

pub mod confirming;
pub mod delivery;
pub mod edit_model;
pub mod frames;
pub mod keys;
pub mod laws;
pub mod observer;
pub mod repair;
pub mod session;
pub mod typing;

verus! {

/// Surrounding-text cursor in bytes.
pub struct ByteCursor(pub u32);

/// Surrounding-text cursor in characters.
pub struct CharCursor(pub u32);

/// Empty frames in a row, while the shadow holds text, that mark a client's
/// surrounding text as dead. Two absorbs a single race; a working client never
/// produces even one.
pub const SURROUNDING_DEAD_STRIKE_LIMIT: u32 = 2;

/// How long, in milliseconds, a frame counts as an echo of the last action.
pub const RECENT_ACTION_MS: u128 = 150;

/// How long, in milliseconds, a pause makes the cursor uncertain.
pub const IDLE_MS: u128 = 2000;

/// An engine edit that waits for the frame that proves where its key landed.
/// `base_word` is the word that the engine believed it was editing.
#[derive(Debug, Clone)]
pub struct PendingEngineEdit {
    pub backspaces: usize,
    pub commit: String,
    pub base_word: String,
}

/// Where the engine's word came from.
#[derive(Debug, Clone, Copy, PartialEq, Eq, Structural)]
pub struct Context {
    /// Seeded from visible text instead of live keystrokes.
    pub retroactive: bool,
    /// Taken from a frame, whose cursor may be stale.
    pub from_frame: bool,
    /// A forwarded action or a pause left no trustworthy context for the next
    /// key.
    pub await_frame: bool,
}

/// Settings of a composer.
#[derive(Debug, Clone, Copy, PartialEq, Eq, Structural)]
pub struct Options {
    /// `[`, `]`, `{` and `}` type `ơ`, `ư`, `Ơ` and `Ư` in Telex.
    pub bracket_shortcuts: bool,
    /// Retroactive edits wait for a frame that confirms the raw key.
    pub confirm_retroactive_edits: bool,
}

/// Whether the client keeps its surrounding text alive.
#[derive(Debug, PartialEq, Eq, Structural)]
pub struct Liveness {
    /// Dead frames in a row.
    pub dead_strikes: u32,
    pub ibus: IbusSurroundingQuirk,
}

/// A raw key that waits for the frame that shows it.
#[derive(Debug)]
pub struct PendingKey {
    pub key: Option<char>,
    /// No other key overtook it, so its frame may justify a repair.
    pub repairable: bool,
    pub edit: Option<PendingEngineEdit>,
}

impl View for PendingKey {
    type V = Pending;

    open spec fn view(&self) -> Pending {
        Pending {
            key: self.key,
            repairable: self.repairable,
            stash: match self.edit {
                Some(p) => Some(
                    Stash { backspaces: p.backspaces, commit: p.commit@, base_word: p.base_word@ },
                ),
                None => None,
            },
        }
    }
}

impl PendingKey {
    /// Nothing waits.
    pub fn none() -> (p: Self)
        ensures
            p@ == session::nothing(),
    {
        PendingKey { key: None, repairable: false, edit: None }
    }
}

/// Composition state of one text input.
pub struct Composer<E: SyllableEngine> {
    pub engine: EngineState<E>,
    pub last_keystroke_at: Instant,
    /// Last printable key that the user typed, whatever became of it.
    pub last_input_char: Option<char>,
    /// Whether the client applies committed strings. Once lost it is never
    /// regained: a new activation makes a new `Composer`.
    pub commit_string_functional: bool,
    /// When the user last acted; `None` when no frame may count as an echo.
    pub last_action_at: Option<Instant>,
    pub liveness: Liveness,
    pub context: Context,
    pub firefox: FirefoxContenteditableQuirk,
    pub options: Options,
    pub pending: PendingKey,
    pub edit: EditModel,
}

/// The readings of the clock that a composer keeps: at its last key, and at the last
/// action that a frame may echo.
pub struct Stamps {
    pub key: Instant,
    pub action: Option<Instant>,
}

impl<E: SyllableEngine> Composer<E> {
    /// The readings of the clock that it keeps. They stand beside the view: only the
    /// clock can tell how long ago they are.
    pub open spec fn stamps(&self) -> Stamps {
        Stamps { key: self.last_keystroke_at, action: self.last_action_at }
    }
}

impl<E: SyllableEngine> View for Composer<E> {
    type V = Session;

    open spec fn view(&self) -> Session {
        Session {
            engine: self.engine@,
            last_input_char: self.last_input_char,
            commit_string_functional: self.commit_string_functional,
            acted: self.last_action_at is Some,
            liveness: self.liveness,
            context: self.context,
            firefox: self.firefox@,
            options: self.options,
            pending: self.pending@,
            edit: self.edit@,
        }
    }
}

impl<E: SyllableEngine> Composer<E> {
    pub fn new(
        input_method: InputMethod,
        backspace_method: BackspaceMethod,
        bracket_shortcuts: bool,
    ) -> (c: Self)
        ensures
            c@ == session::started(
                engine::kind_of::<E>(),
                input_method,
                backspace_method,
                bracket_shortcuts,
            ),
    {
        Self::new_at(input_method, backspace_method, bracket_shortcuts, Instant::now())
    }

    /// A composer whose first pause counts from `now`.
    pub fn new_at(
        input_method: InputMethod,
        backspace_method: BackspaceMethod,
        bracket_shortcuts: bool,
        now: Instant,
    ) -> (c: Self)
        ensures
            c@ == session::started(
                engine::kind_of::<E>(),
                input_method,
                backspace_method,
                bracket_shortcuts,
            ),
            c.stamps() == (Stamps { key: now, action: None }),
    {
        Self {
            engine: EngineState::new_with_options(input_method, bracket_shortcuts),
            edit: EditModel::new(backspace_method),
            last_keystroke_at: now,
            last_input_char: None,
            commit_string_functional: true,
            last_action_at: None,
            liveness: Liveness { dead_strikes: 0, ibus: IbusSurroundingQuirk::new() },
            context: Context { retroactive: false, from_frame: false, await_frame: false },
            firefox: FirefoxContenteditableQuirk::new(),
            options: Options { bracket_shortcuts, confirm_retroactive_edits: false },
            pending: PendingKey::none(),
        }
    }

    /// The user just acted: frames that follow soon may be echoes.
    pub fn mark_action(&mut self)
        ensures
            final(self)@ == (Session { acted: true, ..old(self)@ }),
            final(self).stamps().key == old(self).stamps().key,
    {
        self.mark_action_at(Instant::now());
    }

    /// The user acted at `now`.
    pub fn mark_action_at(&mut self, now: Instant)
        ensures
            final(self)@ == (Session { acted: true, ..old(self)@ }),
            final(self).stamps() == (Stamps { action: Some(now), ..old(self).stamps() }),
    {
        self.last_action_at = Some(now);
    }

    /// The cursor is now elsewhere: the next frame is no echo.
    pub fn defer_action(&mut self)
        ensures
            final(self)@ == (Session { acted: false, ..old(self)@ }),
            final(self).stamps() == (Stamps { action: None, ..old(self).stamps() }),
    {
        self.last_action_at = None;
    }

    /// Whether the user acted within the echo window, when the last action is
    /// `elapsed_ms` ago.
    pub fn acted_within_window(&self, elapsed_ms: u128) -> (recent: bool)
        ensures
            recent == (self@.acted && elapsed_ms < RECENT_ACTION_MS),
    {
        self.last_action_at.is_some() && elapsed_ms < RECENT_ACTION_MS
    }

    /// Whether the user acted within the echo window.
    pub fn recent_action(&self) -> (recent: bool)
        ensures
            !self@.acted ==> !recent,
    {
        match &self.last_action_at {
            Some(then) => self.acted_within_window(clock::millis_since(then)),
            None => false,
        }
    }

    /// Require frames to confirm cursor-relative retroactive edits.
    pub fn set_surrounding_confirmation(&mut self, on: bool)
        ensures
            final(self).stamps() == old(self).stamps(),
            final(self)@ == (Session {
                options: Options { confirm_retroactive_edits: on, ..old(self)@.options },
                ..old(self)@
            }),
    {
        self.options.confirm_retroactive_edits = on;
    }

    pub fn method(&self) -> (m: BackspaceMethod)
        ensures
            m == session::tier(self@),
    {
        self.edit.method()
    }

    /// Switch the tier. Off the surrounding-text tier no frame will ever confirm
    /// a pending key, so none is kept.
    pub fn set_method(&mut self, m: BackspaceMethod)
        ensures
            final(self).stamps() == old(self).stamps(),
            final(self)@ == session::tier_switched(old(self)@, m),
    {
        self.edit.set_method(m);
        if m != BackspaceMethod::SurroundingText {
            self.pending = PendingKey::none();
        }
    }

    /// Note a frame. `true` when the client's surrounding text has proved dead:
    /// its frames stay empty while the shadow holds text.
    pub fn note_surrounding_liveness(&mut self, text: &str, cursor: u32) -> (dead: bool)
        ensures
            final(self).stamps() == old(self).stamps(),
            final(self)@ == (Session {
                liveness: Liveness {
                    dead_strikes: session::strikes_after(old(self)@, text@, cursor),
                    ..old(self)@.liveness
                },
                ..old(self)@
            }),
            dead == (session::dead_frame(old(self)@, text@, cursor) && session::strikes_after(
                old(self)@,
                text@,
                cursor,
            ) >= SURROUNDING_DEAD_STRIKE_LIMIT),
    {
        let dead = text.is_empty() && cursor == 0 && !self.edit.shadow_text().is_empty();
        if dead {
            self.liveness.dead_strikes = self.liveness.dead_strikes.saturating_add(1);
            self.liveness.dead_strikes >= SURROUNDING_DEAD_STRIKE_LIMIT
        } else {
            if !text.is_empty() {
                self.liveness.dead_strikes = 0;
            }
            false
        }
    }

    /// A surrounding-text frame arrived, whatever it holds.
    pub fn mark_surrounding_frame_seen(&mut self)
        ensures
            final(self).stamps() == old(self).stamps(),
            final(self)@ == (Session {
                liveness: Liveness {
                    ibus: old(self)@.liveness.ibus.seen(),
                    ..old(self)@.liveness
                },
                ..old(self)@
            }),
    {
        self.liveness.ibus.mark_surrounding_frame_seen();
    }

    /// Note a correction that deletes. `true` when the one before it went without
    /// an echo.
    pub fn note_surrounding_correction(&mut self) -> (downgrade: bool)
        ensures
            final(self).stamps() == old(self).stamps(),
            final(self)@ == (Session {
                liveness: Liveness {
                    ibus: old(self)@.liveness.ibus.corrected(),
                    ..old(self)@.liveness
                },
                ..old(self)@
            }),
            downgrade == (old(self)@.liveness.ibus.surrounding_saw_correction
                && !old(self)@.liveness.ibus.surrounding_echo_since_correction),
    {
        self.liveness.ibus.note_correction_and_should_downgrade()
    }

    pub fn set_modifiers(&mut self, m: ModifierState)
        ensures
            final(self).stamps() == old(self).stamps(),
            final(self)@ == session::modified(old(self)@, m),
    {
        self.edit.set_modifiers(m);
    }

    /// Change the input method. All composition state goes; the tone style stays.
    pub fn set_input_method(&mut self, method: InputMethod)
        ensures
            final(self).stamps() == old(self).stamps(),
            final(self)@ == session::method_changed(old(self)@, method),
            engine::style(final(self)@.engine) == engine::style(old(self)@.engine),
    {
        let modern_style = self.engine.modern_style();
        self.full_reset();
        self.engine = EngineState::new_with_options(method, self.options.bracket_shortcuts);
        self.engine.set_modern_style(modern_style);
    }

    /// Place tones the modern way, or the legacy way.
    pub fn set_modern_style(&mut self, enabled: bool)
        ensures
            final(self).stamps() == old(self).stamps(),
            final(self)@ == (Session {
                engine: engine::asked(old(self)@.engine, session::styled(enabled)),
                ..old(self)@
            }),
    {
        self.engine.set_modern_style(enabled);
    }

    /// Drop everything that tracks a word in progress: engine, shadow, last key
    /// and last frame.
    pub fn full_reset(&mut self)
        ensures
            final(self).stamps() == old(self).stamps(),
            final(self)@ == session::fully_reset(old(self)@),
    {
        self.reset_composition_preserving_surrounding();
        self.edit.clear_prev_surrounding();
        self.liveness.ibus.reset();
    }

    /// Drop the composition, and keep the last frame. A forwarded action takes
    /// effect later, and the client may repeat the frame from before it: kept,
    /// that frame is recognised as a repetition.
    pub fn reset_composition_preserving_surrounding(&mut self)
        ensures
            final(self).stamps() == old(self).stamps(),
            final(self)@ == session::composition_reset(old(self)@),
    {
        self.engine.reset();
        self.edit.reset_composition();
        self.last_input_char = None;
        self.context = Context { retroactive: false, from_frame: false, await_frame: true };
        self.pending = PendingKey::none();
        self.firefox.clear();
        self.firefox.reset_forward_sticky();
    }

    /// Drop the engine's state when the last key is at least [`IDLE_MS`] ago.
    pub fn reset_when_idle(&mut self, elapsed_ms: u128) -> (idle: bool)
        ensures
            idle == (elapsed_ms >= IDLE_MS),
            final(self)@ == if idle {
                session::idled(old(self)@)
            } else {
                old(self)@
            },
            !idle ==> *final(self) == *old(self),
            final(self).stamps() == old(self).stamps(),
    {
        let idle = elapsed_ms >= IDLE_MS;
        if idle {
            self.engine.reset();
            self.context.await_frame = true;
        }
        idle
    }

    /// After a pause the cursor may have moved unseen: drop the engine's state,
    /// and let the next key wait for a frame. The shadow stays, so that the word
    /// in front of the cursor can still seed the engine. The pause is measured from
    /// the last key, and goes on: only a key ends it.
    pub fn check_idle_reset(&mut self) -> (idle: bool)
        ensures
            final(self)@ == if idle {
                session::idled(old(self)@)
            } else {
                old(self)@
            },
            !idle ==> *final(self) == *old(self),
            final(self).stamps() == old(self).stamps(),
    {
        let elapsed_ms: u128 = clock::millis_since(&self.last_keystroke_at);
        self.reset_when_idle(elapsed_ms)
    }
}

} // verus!
