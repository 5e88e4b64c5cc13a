//! Surrounding-text frames in, repairs out.
use vstd::prelude::*;
use vstd::string::*;

use crate::composer::edit_model;
use crate::composer::observer;
use crate::composer::observer::SurroundingObserver;
use crate::composer::repair;
use crate::composer::repair::{Retro, RetroEdit};
use crate::composer::session;
use crate::composer::session::Session;
use crate::composer::{ByteCursor, CharCursor, Composer, Context, PendingKey};
use crate::edit;
use crate::edit::shadow;
use crate::engine;
use crate::engine::SyllableEngine;
use crate::quirks::firefox;
use crate::text;
use crate::words;

verus! {

/// A frame: its text, and cursor and anchor as byte offsets.
pub struct Frame {
    pub text: Seq<char>,
    pub cursor: u32,
    pub anchor: u32,
}

/// The text of a frame in front of its cursor.
pub open spec fn front(f: Frame) -> Seq<char> {
    words::before_cursor(f.text, f.cursor as nat)
}

/// The frame is taken over into the shadow and recorded.
pub open spec fn frame_recorded(s: Session, f: Frame) -> Session {
    Session {
        edit: edit_model::recorded(
            edit_model::with_shadow(s.edit, shadow::synced(f.text, f.cursor, f.anchor)),
            f.text,
            f.cursor,
            f.anchor,
        ),
        ..s
    }
}

/// The frame settles the pending key: nothing waits any more, and the key is the
/// last one known.
pub open spec fn key_settled(s: Session, f: Frame, ch: char) -> Session {
    Session {
        pending: session::nothing(),
        last_input_char: Some(ch),
        ..frame_recorded(s, f)
    }
}

/// The engine's word is now the one in the frame, if the seed went in.
pub open spec fn frame_context(s: Session, e: engine::EngineView, fed: bool) -> Session {
    Session {
        engine: e,
        context: Context { retroactive: fed, from_frame: fed, ..s.context },
        ..s
    }
}

/// The pending key stands immediately before the frame's cursor.
pub open spec fn shows_pending_key(s: Session, f: Frame) -> bool {
    &&& s.pending.key is Some
    &&& front(f).len() > 0
    &&& front(f).last() == s.pending.key->0
}

/// What stood in front of the pending key: its word.
pub open spec fn base_word(f: Frame) -> Seq<char> {
    words::last_word(front(f).drop_last())
}

/// How a frame that shows the pending key is dealt with.
pub enum Confirmation {
    /// The frame changed by more than this key, or another key overtook it: the
    /// frame is taken over, and nothing is repaired.
    Sync,
    /// The engine already composed this key on this word: its edit goes out.
    Emit,
    /// The key is replayed on the word that the frame shows.
    Replay,
}

/// Which way a frame that shows the pending key is dealt with.
pub open spec fn confirmation(s: Session, f: Frame) -> Confirmation {
    if !words::char_inserted_before(s.edit.prev_text, f.text, f.cursor as nat, s.pending.key->0)
        || !s.pending.repairable {
        Confirmation::Sync
    } else if s.pending.stash is Some && s.pending.stash->0.base_word == base_word(f) {
        Confirmation::Emit
    } else {
        Confirmation::Replay
    }
}

/// The engine once `word` was offered as a seed; an empty word is not offered.
pub open spec fn word_offered(e: engine::EngineView, word: Seq<char>) -> engine::EngineView {
    if word.len() == 0 {
        e
    } else {
        engine::offered(e, word)
    }
}

/// Whether `word`, which is offered as a seed, goes in.
pub open spec fn word_seeds(e: engine::EngineView, word: Seq<char>) -> bool {
    word.len() > 0 && engine::seeds(e, word)
}

/// The state once the engine started over from the word in a frame.
pub open spec fn reseeded(s: Session, e: engine::EngineView, word: Seq<char>) -> Session {
    frame_context(s, word_offered(e, word), word_seeds(e, word))
}

/// What a frame that shows the pending key leads to.
#[verifier::opaque]
pub open spec fn confirmed(s: Session, f: Frame) -> (Session, Option<Retro>) {
    let ch = s.pending.key->0;
    let settled = key_settled(s, f, ch);
    let reset = session::engine_reset(s.engine);
    match confirmation(s, f) {
        Confirmation::Sync => (reseeded(settled, reset, words::last_word(front(f))), None),
        Confirmation::Emit => (
            frame_context(settled, s.engine, true),
            Some(
                Retro {
                    backspaces: edit::surrounding::one_more(s.pending.stash->0.backspaces),
                    commit: s.pending.stash->0.commit,
                },
            ),
        ),
        Confirmation::Replay => {
            let e = word_offered(reset, base_word(f));
            if word_seeds(reset, base_word(f)) {
                let reply = engine::answer(e, ch);
                (
                    frame_context(
                        settled,
                        engine::asked(e, engine::Exchange::Key { ch, reply }),
                        true,
                    ),
                    repair::repair(base_word(f), ch, reply),
                )
            } else {
                (reseeded(settled, session::engine_reset(e), base_word(f).push(ch)), None)
            }
        },
    }
}

/// What is made of a frame that shows no pending key.
pub open spec fn frame_judgement(s: Session, f: Frame, force: bool, recent: bool) -> observer::SurroundingDecision {
    observer::judged(
        recent,
        words::one_char_inserted(
            s.edit.prev_text,
            s.edit.prev_cursor as nat,
            f.text,
            f.cursor as nat,
        ),
        frame_deletes(s, f),
        force,
        front(f) == session::shadow_of(s),
    )
}

/// The frame shows a deletion, or the very text that was expected.
pub open spec fn frame_deletes(s: Session, f: Frame) -> bool {
    words::span_deleted(
        s.edit.prev_text,
        s.edit.prev_cursor as nat,
        f.text,
        f.cursor as nat,
    ) || front(f) == session::shadow_of(s)
}

/// The state once the stale-echo workaround has judged a frame. A client that
/// needs it does not apply committed strings either.
#[verifier::opaque]
pub open spec fn frame_screened(s: Session, f: Frame, recent: bool) -> Session {
    let q = firefox::observed(s.firefox, front(f), recent, s.context.retroactive);
    Session {
        firefox: q,
        commit_string_functional: s.commit_string_functional && !q.use_forward_delete
            && !q.forward_sticky,
        ..s
    }
}

/// The state once a believed frame is taken over into the shadow: what waited for
/// a frame is superseded.
#[verifier::opaque]
pub open spec fn frame_believed(s: Session, f: Frame) -> Session {
    let speculative = s.pending.stash is Some;
    Session {
        edit: edit_model::with_shadow(s.edit, shadow::synced(f.text, f.cursor, f.anchor)),
        pending: session::nothing(),
        engine: if speculative {
            session::engine_reset(s.engine)
        } else {
            s.engine
        },
        context: Context {
            retroactive: s.context.retroactive && !speculative,
            await_frame: false,
            ..s.context
        },
        ..s
    }
}

/// The engine starts over, and the last key typed no longer describes the place.
#[verifier::opaque]
pub open spec fn context_dropped(s: Session) -> Session {
    Session {
        engine: session::engine_reset(s.engine),
        context: Context { retroactive: false, from_frame: false, ..s.context },
        last_input_char: None,
        ..s
    }
}

/// The word at the frame's insertion point.
pub open spec fn insertion_word(f: Frame) -> Seq<char> {
    words::word_before(
        f.text,
        if f.cursor <= f.anchor {
            f.cursor as nat
        } else {
            f.anchor as nat
        },
    )
}

/// What a frame that shows no pending key leads to.
#[verifier::opaque]
pub open spec fn frame_outcome(s: Session, f: Frame, force: bool, recent: bool) -> Session {
    let d = frame_judgement(s, f, force, recent);
    let q = frame_screened(s, f, recent);
    if !d.trust {
        q
    } else {
        let b = frame_believed(q, f);
        let t = if frame_deletes(s, f) {
            if front(f) == session::shadow_of(s) {
                b
            } else {
                context_dropped(b)
            }
        } else if d.reseed {
            reseeded(context_dropped(b), context_dropped(b).engine, insertion_word(f))
        } else {
            b
        };
        Session { edit: edit_model::recorded(t.edit, f.text, f.cursor, f.anchor), ..t }
    }
}

/// Whether a frame settles a pending key: without a selection, it shows that key
/// before its cursor.
pub open spec fn settles_key(s: Session, f: Frame) -> bool {
    f.cursor == f.anchor && shows_pending_key(s, f)
}

/// What a frame leads to.
#[verifier::opaque]
pub open spec fn frame_taken(s: Session, f: Frame, force: bool, recent: bool) -> (
    Session,
    Option<Retro>,
) {
    if settles_key(s, f) {
        confirmed(s, f)
    } else {
        (frame_outcome(s, f, force, recent), None)
    }
}

impl<E: SyllableEngine> Composer<E> {
    /// Offer `word` to the engine as a seed from a frame.
    fn seed_from_frame(&mut self, word: &str)
        ensures
            final(self).stamps() == old(self).stamps(),
            final(self)@ == reseeded(old(self)@, old(self)@.engine, word@),
    {
        let fed = !word.is_empty() && self.engine.feed_context_gated(word);
        self.context.retroactive = fed;
        self.context.from_frame = fed;
    }

    /// Take a frame over, and let it settle the pending key.
    fn settle_key(&mut self, text: &str, cursor: u32, anchor: u32, ch: char)
        ensures
            final(self).stamps() == old(self).stamps(),
            final(self)@ == key_settled(
                old(self)@,
                (Frame { text: text@, cursor, anchor }),
                ch,
            ),
    {
        self.edit.on_surrounding_text(text, cursor, anchor);
        self.edit.record_surrounding(text, cursor, anchor);
        self.pending = PendingKey::none();
        self.last_input_char = Some(ch);
    }

    /// Replay the pending key on the word that the frame shows.
    fn replay_key(&mut self, text: &str, cursor: u32, anchor: u32, ch: char, base: &str) -> (r:
        Option<RetroEdit>)
        requires
            old(self)@.pending.key == Some(ch),
            shows_pending_key(old(self)@, (Frame { text: text@, cursor, anchor })),
            confirmation(old(self)@, (Frame { text: text@, cursor, anchor })) is Replay,
            base@ == base_word((Frame { text: text@, cursor, anchor })),
        ensures
            final(self).stamps() == old(self).stamps(),
            (final(self)@, repair::retro_view(r)) == confirmed(
                old(self)@,
                (Frame { text: text@, cursor, anchor }),
            ),
    {
        reveal(confirmed);
        self.engine.reset();
        let fed = !base.is_empty() && self.engine.feed_context_gated(base);
        self.settle_key(text, cursor, anchor, ch);
        if fed {
            let reply = self.engine.process_key(ch);
            self.context.retroactive = true;
            self.context.from_frame = true;
            return repair::repair_edit(base, ch, &reply);
        }
        let mut screen_word = base.to_owned();
        screen_word.push(ch);
        self.engine.reset();
        self.seed_from_frame(screen_word.as_str());
        None
    }

    /// Finish a raw-key transaction from what the client shows. The one proof
    /// that is needed is the key immediately before the reported cursor; how the
    /// cursor got there is irrelevant.
    /// A frame without that proof leaves everything as it is.
    pub fn confirm_pending_raw_key(&mut self, text: &str, cursor: u32, anchor: u32) -> (r: Option<
        RetroEdit,
    >)
        ensures
            final(self).stamps() == old(self).stamps(),
            !shows_pending_key(old(self)@, (Frame { text: text@, cursor, anchor })) ==> r is None
                && *final(self) == *old(self),
            shows_pending_key(old(self)@, (Frame { text: text@, cursor, anchor })) ==> (
                final(self)@,
                repair::retro_view(r),
            ) == confirmed(old(self)@, (Frame { text: text@, cursor, anchor })),
    {
        reveal(confirmed);
        let ch: char = match self.pending.key {
            Some(ch) => ch,
            None => {
                return None;
            },
        };
        let before = words::text_before_cursor(text, cursor);
        let n: usize = before.unicode_len();
        if n == 0 || before.get_char(n - 1) != ch {
            return None;
        }
        let stripped = before.substring_char(0, n - 1);
        assert(stripped@ =~= before@.drop_last());
        let base = words::last_word_of(stripped).to_owned();
        let proven = self.edit.confirms_inserted_char(text, cursor, ch);
        if !proven || !self.pending.repairable {
            let actual = words::last_word_of(before).to_owned();
            self.settle_key(text, cursor, anchor, ch);
            self.engine.reset();
            self.seed_from_frame(actual.as_str());
            return None;
        }
        let same_word = match &self.pending.edit {
            Some(stash) => *stash.base_word.as_str() == *base.as_str(),
            None => false,
        };
        if !same_word {
            return self.replay_key(text, cursor, anchor, ch, base.as_str());
        }
        let stash = self.pending.edit.take();
        self.settle_key(text, cursor, anchor, ch);
        self.context.retroactive = true;
        self.context.from_frame = true;
        match stash {
            Some(stash) => {
                Some(
                    RetroEdit {
                        backspaces: stash.backspaces.saturating_add(1),
                        commit: stash.commit,
                    },
                )
            },
            None => None,
        }
    }

    /// Let the stale-echo workaround judge a frame.
    fn screen_frame(&mut self, text: &str, cursor: u32, anchor: u32, recent: bool)
        ensures
            final(self).stamps() == old(self).stamps(),
            final(self)@ == frame_screened(
                old(self)@,
                (Frame { text: text@, cursor, anchor }),
                recent,
            ),
    {
        reveal(frame_screened);
        let before = words::text_before_cursor(text, cursor);
        self.firefox.observe_surrounding(before, recent, self.context.retroactive);
        if self.firefox.use_forward_delete() || self.firefox.forward_sticky() {
            self.commit_string_functional = false;
        }
    }

    /// Take a believed frame over into the shadow.
    fn believe_frame(&mut self, text: &str, cursor: u32, anchor: u32)
        ensures
            final(self).stamps() == old(self).stamps(),
            final(self)@ == frame_believed(
                old(self)@,
                (Frame { text: text@, cursor, anchor }),
            ),
    {
        reveal(frame_believed);
        let speculative = self.pending.edit.is_some();
        self.edit.on_surrounding_text(text, cursor, anchor);
        self.context.await_frame = false;
        self.pending = PendingKey::none();
        if speculative {
            self.engine.reset();
            self.context.retroactive = false;
        }
    }

    /// Let the engine start over.
    fn drop_context(&mut self)
        ensures
            final(self).stamps() == old(self).stamps(),
            final(self)@ == context_dropped(old(self)@),
    {
        reveal(context_dropped);
        self.engine.reset();
        self.context.retroactive = false;
        self.context.from_frame = false;
        self.last_input_char = None;
    }

    /// The reseed gate, for a frame that shows no pending key.
    fn gate_frame(&mut self, text: &str, cursor: u32, anchor: u32, force_reseed: bool, recent: bool)
        ensures
            final(self).stamps() == old(self).stamps(),
            final(self)@ == frame_outcome(
                old(self)@,
                (Frame { text: text@, cursor, anchor }),
                force_reseed,
                recent,
            ),
    {
        reveal(frame_outcome);
        let ghost start = self@;
        let ghost f = Frame { text: text@, cursor, anchor };
        let before = words::text_before_cursor(text, cursor);
        let one_char = self.edit.one_char_insertion_since_prev(text, cursor);
        let shadow_confirmed = *before == *self.edit.shadow_text();
        let deletion = self.edit.deletion_since_prev(text, cursor) || shadow_confirmed;
        let d = SurroundingObserver::observe(
            recent,
            one_char,
            deletion,
            force_reseed,
            shadow_confirmed,
        );
        assert(d == frame_judgement(start, f, force_reseed, recent));
        assert(deletion == frame_deletes(start, f));
        self.screen_frame(text, cursor, anchor, recent);
        if !d.trust {
            return;
        }
        self.believe_frame(text, cursor, anchor);
        if deletion {
            if !shadow_confirmed {
                self.drop_context();
            }
        } else if d.reseed {
            self.drop_context();
            self.seed_from_frame(
                words::current_word_before_insertion_point(text, cursor, anchor),
            );
        }
        self.edit.record_surrounding(text, cursor, anchor);
    }

    /// Take in a frame, when it is known whether the user acted just before it.
    pub fn take_frame(
        &mut self,
        text: &str,
        cursor: u32,
        anchor: u32,
        force_reseed: bool,
        recent: bool,
    ) -> (r: Option<RetroEdit>)
        ensures
            final(self).stamps() == old(self).stamps(),
            (final(self)@, repair::retro_view(r)) == frame_taken(
                old(self)@,
                (Frame { text: text@, cursor, anchor }),
                force_reseed,
                recent,
            ),
    {
        let ghost start = self@;
        let ghost f = Frame { text: text@, cursor, anchor };
        reveal(frame_taken);
        if cursor == anchor && self.pending.key.is_some() {
            let repair = self.confirm_pending_raw_key(text, cursor, anchor);
            proof {
                lemma_confirmed_settles(start, f);
            }
            if repair.is_some() || self.pending.key.is_none() {
                return repair;
            }
        }
        self.gate_frame(text, cursor, anchor, force_reseed, recent);
        None
    }

    /// Take in a frame whose cursor and anchor are byte offsets.
    pub fn apply_surrounding(
        &mut self,
        text: &str,
        cursor: u32,
        anchor: u32,
        force_reseed: bool,
    ) -> (r: Option<RetroEdit>)
        ensures
            final(self).stamps() == old(self).stamps(),
            exists|recent: bool|
                (recent ==> old(self)@.acted) && (final(self)@, repair::retro_view(r))
                    == #[trigger] frame_taken(
                    old(self)@,
                    (Frame { text: text@, cursor, anchor }),
                    force_reseed,
                    recent,
                ),
    {
        let recent = self.recent_action();
        self.take_frame(text, cursor, anchor, force_reseed, recent)
    }

    /// Take in a frame with byte cursors. `force_reseed` is for the frame of an
    /// activation.
    pub fn observe_surrounding_bytes(
        &mut self,
        text: &str,
        cursor: ByteCursor,
        anchor: ByteCursor,
        force_reseed: bool,
    ) -> (r: Option<RetroEdit>)
        ensures
            final(self).stamps() == old(self).stamps(),
            exists|recent: bool|
                (recent ==> old(self)@.acted) && (final(self)@, repair::retro_view(r))
                    == #[trigger] frame_taken(
                    old(self)@,
                    (Frame { text: text@, cursor: cursor.0, anchor: anchor.0 }),
                    force_reseed,
                    recent,
                ),
    {
        self.apply_surrounding(text, cursor.0, anchor.0, force_reseed)
    }

    /// Take in a frame with character cursors. Everything behind this boundary
    /// counts bytes.
    pub fn observe_surrounding_chars(&mut self, text: &str, cursor: CharCursor, anchor: CharCursor)
        ensures
            final(self).stamps() == old(self).stamps(),
            exists|recent: bool|
                (recent ==> old(self)@.acted) && final(self)@ == (#[trigger] frame_taken(
                    old(self)@,
                    char_frame(text@, cursor.0, anchor.0),
                    false,
                    recent,
                )).0,
    {
        let cursor_bytes: u32 = words::char_to_byte_offset(text, cursor.0);
        let anchor_bytes: u32 = words::char_to_byte_offset(text, anchor.0);
        let _repair = self.apply_surrounding(text, cursor_bytes, anchor_bytes, false);
        assert(char_frame(text@, cursor.0, anchor.0) == (Frame {
            text: text@,
            cursor: cursor_bytes,
            anchor: anchor_bytes,
        }));
    }

    /// Whether the frame is exactly the last one.
    pub fn is_duplicate_frame(&self, text: &str, cursor: u32, anchor: u32) -> (b: bool)
        ensures
            b == edit_model::duplicate(self@.edit, text@, cursor, anchor),
    {
        self.edit.is_duplicate_frame(text, cursor, anchor)
    }

    /// Whether a frame tells nothing new. A repetition does while a correction
    /// waits for its echo: it may be the only sign of a stale client.
    pub fn should_skip_surrounding_frame(
        &self,
        text: &str,
        cursor: u32,
        anchor: u32,
        activate: bool,
        deactivate: bool,
    ) -> (b: bool)
        ensures
            b == (!activate && !deactivate && self@.firefox.expected_echo is None
                && edit_model::duplicate(self@.edit, text@, cursor, anchor)),
    {
        !activate && !deactivate && !self.firefox.has_pending_echo() && self.is_duplicate_frame(
            text,
            cursor,
            anchor,
        )
    }

    /// Forget the last frame.
    pub fn clear_prev_surrounding(&mut self)
        ensures
            final(self).stamps() == old(self).stamps(),
            final(self)@ == (Session {
                edit: edit_model::recorded(old(self)@.edit, Seq::empty(), 0, 0),
                ..old(self)@
            }),
    {
        self.edit.clear_prev_surrounding();
    }

    pub fn prev_surrounding_for_trace(&self) -> (r: (&str, u32))
        ensures
            r.0@ == self@.edit.prev_text,
            r.1 == self@.edit.prev_cursor,
    {
        self.edit.prev_surrounding_for_trace()
    }

    pub fn shadow_text(&self) -> (r: &str)
        ensures
            r@ == session::shadow_of(self@),
    {
        self.edit.shadow_text()
    }
}

/// The frame with byte offsets for one with character offsets.
pub open spec fn char_frame(text: Seq<char>, cursor: u32, anchor: u32) -> Frame {
    Frame { text, cursor: byte_offset(text, cursor), anchor: byte_offset(text, anchor) }
}

/// The byte offset of a character, or of the end.
pub open spec fn byte_offset(s: Seq<char>, at: u32) -> u32 {
    text::utf8_len(
        s.take(
            if at <= s.len() {
                at as int
            } else {
                s.len() as int
            },
        ),
    ) as u32
}

proof fn lemma_confirmed_settles(s: Session, f: Frame)
    ensures
        confirmed(s, f).0.pending.key is None,
{
    reveal(confirmed);
}

} // verus!
