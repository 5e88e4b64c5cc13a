//! Keys in, decisions out.
use vstd::prelude::*;
use vstd::string::*;

use std::time::Instant;

use crate::composer::edit_model;
use crate::composer::session;
use crate::composer::session::{Pending, Session, Stash};
use crate::composer::{Composer, Context, PendingEngineEdit, PendingKey, Stamps};
use crate::edit;
use crate::edit::{BackspaceMethod, KeyDecision};
use crate::engine;
use crate::engine::{ProcessResult, SyllableEngine};
use crate::quirks::firefox;
use crate::words;

verus! {

fn is_ascii_letter(c: char) -> (b: bool)
    ensures
        b == session::ascii_letter(c),
{
    ('a' <= c && c <= 'z') || ('A' <= c && c <= 'Z')
}

/// A key waits for a frame, on the tier that gets frames.
#[verifier::opaque]
pub open spec fn key_unconfirmed(s: Session) -> bool {
    s.pending.key is Some && session::tier(s) == BackspaceMethod::SurroundingText
}

/// The next key's edit has to wait for a frame.
#[verifier::opaque]
pub open spec fn context_uncertain(s: Session) -> bool {
    &&& s.options.confirm_retroactive_edits
    &&& session::tier(s) == BackspaceMethod::SurroundingText
    &&& s.context.await_frame || s.context.from_frame || s.pending.key is Some
}

/// The key before this one ended a word.
#[verifier::opaque]
pub open spec fn after_separator(s: Session) -> bool {
    s.last_input_char is Some && !session::ascii_letter(s.last_input_char->0)
}

/// The state once a key is taken up, before the engine sees it. A key that
/// overtakes one that still waits makes the engine start over; anything but a
/// letter ends what was known of the word.
#[verifier::opaque]
pub open spec fn key_begun(s: Session, ch: char) -> Session {
    let overtakes = key_unconfirmed(s);
    let letter = session::ascii_letter(ch);
    Session {
        engine: if overtakes {
            session::engine_reset(s.engine)
        } else {
            s.engine
        },
        context: Context {
            retroactive: s.context.retroactive && !overtakes && letter,
            from_frame: s.context.from_frame && letter,
            await_frame: false,
        },
        pending: if overtakes {
            Pending { stash: None, ..s.pending }
        } else {
            s.pending
        },
        firefox: if letter {
            s.firefox
        } else {
            firefox::cleared(s.firefox)
        },
        last_input_char: Some(ch),
        ..s
    }
}

/// A key seeds the engine from the word in front of it: the engine has none of
/// its own, and the key before did not end it.
pub open spec fn key_seeds(s: Session) -> bool {
    &&& !key_unconfirmed(s)
    &&& engine::begins(s.engine)
    &&& !after_separator(s)
    &&& words::last_word(session::shadow_of(s)).len() > 0
}

/// The state once the engine has answered a key with `r` and the key goes out
/// raw.
pub open spec fn key_forwarded(
    s: Session,
    ch: char,
    uncertain: bool,
    overtakes: bool,
    r: engine::Reply,
) -> Session {
    Session {
        pending: Pending {
            key: if uncertain {
                Some(ch)
            } else {
                s.pending.key
            },
            repairable: if uncertain {
                !overtakes
            } else {
                s.pending.repairable
            },
            stash: if r.consumed {
                Some(
                    Stash {
                        backspaces: r.backspaces,
                        commit: r.commit,
                        base_word: words::last_word(session::shadow_of(s)),
                    },
                )
            } else {
                s.pending.stash
            },
        },
        edit: edit_model::with_shadow_text(s.edit, session::shadow_of(s).push(ch)),
        firefox: firefox::cleared(s.firefox),
        ..s
    }
}

/// What becomes of key `ch` once the engine has answered it with `r`: an edit
/// that rests on an uncertain context is kept back, and the key goes out raw.
#[verifier::opaque]
pub open spec fn key_finished(
    s: Session,
    ch: char,
    uncertain: bool,
    overtakes: bool,
    r: engine::Reply,
) -> (Session, edit::Decision) {
    if r.consumed && !uncertain {
        (
            s,
            edit::Decision::Apply {
                method: session::tier(s),
                backspaces: r.backspaces,
                commit: r.commit,
            },
        )
    } else {
        (key_forwarded(s, ch, uncertain, overtakes, r), edit::Decision::ForwardRaw)
    }
}

/// The state once a seed was offered to the engine.
pub open spec fn seeded(s: Session, e: engine::EngineView, fed: bool) -> Session {
    Session { engine: e, context: Context { retroactive: fed, ..s.context }, ..s }
}

/// The state in which the engine is asked about key `ch`. A key that seeds offers the
/// word in front of it to the engine first.
pub open spec fn key_ready(s: Session, ch: char) -> Session {
    let b = key_begun(s, ch);
    if key_seeds(s) {
        let word = words::last_word(session::shadow_of(s));
        seeded(b, engine::offered(b.engine, word), engine::seeds(b.engine, word))
    } else {
        b
    }
}

/// What key `ch` leads to.
#[verifier::opaque]
pub open spec fn key_outcome(s: Session, ch: char) -> (Session, edit::Decision) {
    let c = key_ready(s, ch);
    let r = engine::answer(c.engine, ch);
    key_finished(
        Session { engine: engine::asked(c.engine, engine::Exchange::Key { ch, reply: r }), ..c },
        ch,
        context_uncertain(s),
        key_unconfirmed(s),
        r,
    )
}

/// What becomes of a Backspace once the engine has answered it with `r`. Where a
/// composed letter goes with a forwarded Backspace, the engine's history of it
/// goes too, or a later restore would bring the deleted keys back.
#[verifier::opaque]
pub open spec fn backspace_finished(s: Session, r: engine::Reply) -> (Session, edit::Decision) {
    let t = session::shadow_of(s);
    if r.consumed {
        (
            s,
            edit::Decision::Apply {
                method: session::tier(s),
                backspaces: r.backspaces,
                commit: r.commit,
            },
        )
    } else {
        let composed = r.backspaces > 0 && t.len() > 0 && (t.last() as u32) >= 0x80;
        (
            Session {
                engine: if composed {
                    session::engine_reset(s.engine)
                } else {
                    s.engine
                },
                context: Context {
                    retroactive: s.context.retroactive && !composed,
                    ..s.context
                },
                edit: edit_model::with_shadow_text(s.edit, words::chars_dropped(t, 1)),
                firefox: firefox::cleared(s.firefox),
                ..s
            },
            edit::Decision::ForwardRaw,
        )
    }
}

/// What a Backspace leads to.
pub open spec fn backspace_outcome(s: Session) -> (Session, edit::Decision) {
    let r = engine::erasure(s.engine);
    backspace_finished(
        Session { engine: engine::asked(s.engine, engine::Exchange::Backspace { reply: r }), ..s },
        r,
    )
}

proof fn lemma_key_begun_keeps(s: Session, ch: char)
    ensures
        key_begun(s, ch).edit == s.edit,
        !key_unconfirmed(s) ==> key_begun(s, ch).engine == s.engine,
{
    reveal(key_begun);
}

impl<E: SyllableEngine> Composer<E> {
    /// Whether a key waits for a frame.
    fn is_key_unconfirmed(&self) -> (b: bool)
        ensures
            b == key_unconfirmed(self@),
    {
        reveal(key_unconfirmed);
        self.pending.key.is_some() && self.method() == BackspaceMethod::SurroundingText
    }

    /// Whether the next key's edit has to wait for a frame.
    fn is_context_uncertain(&self) -> (b: bool)
        ensures
            b == context_uncertain(self@),
    {
        reveal(context_uncertain);
        self.options.confirm_retroactive_edits && self.method() == BackspaceMethod::SurroundingText
            && (self.context.await_frame || self.context.from_frame || self.pending.key.is_some())
    }

    /// Whether the key before this one ended a word.
    fn is_after_separator(&self) -> (b: bool)
        ensures
            b == after_separator(self@),
    {
        reveal(after_separator);
        match self.last_input_char {
            Some(c) => !is_ascii_letter(c),
            None => false,
        }
    }

    /// Take up a key, before the engine sees it.
    pub fn begin_key(&mut self, ch: char)
        ensures
            final(self).stamps() == old(self).stamps(),
            final(self)@ == key_begun(old(self)@, ch),
    {
        reveal(key_begun);
        let overtakes = self.is_key_unconfirmed();
        let letter = is_ascii_letter(ch);
        self.context =
        Context {
            retroactive: self.context.retroactive && !overtakes && letter,
            from_frame: self.context.from_frame && letter,
            await_frame: false,
        };
        self.last_input_char = Some(ch);
        if overtakes {
            // The newest key's frame will bring the state up to date.
            self.engine.reset();
            self.pending.edit = None;
        }
        if !letter {
            self.firefox.clear();
        }
    }

    /// Decide a key from the engine's answer.
    pub fn finish_key(
        &mut self,
        ch: char,
        uncertain: bool,
        overtakes: bool,
        r: ProcessResult,
    ) -> (d: KeyDecision)
        ensures
            final(self).stamps() == old(self).stamps(),
            (final(self)@, d@) == key_finished(old(self)@, ch, uncertain, overtakes, r@),
    {
        reveal(key_finished);
        if r.consumed && !uncertain {
            let method = self.method();
            return KeyDecision::Apply { method, backspaces: r.backspaces, commit: r.commit };
        }
        self.forward_key(ch, uncertain, overtakes, r);
        KeyDecision::ForwardRaw
    }

    /// Let a key go out raw, and remember what the engine made of it.
    fn forward_key(&mut self, ch: char, uncertain: bool, overtakes: bool, r: ProcessResult)
        ensures
            final(self).stamps() == old(self).stamps(),
            final(self)@ == key_forwarded(old(self)@, ch, uncertain, overtakes, r@),
    {
        if r.consumed {
            let base_word = words::last_word_of(self.edit.shadow_text()).to_owned();
            self.pending.edit =
            Some(PendingEngineEdit { backspaces: r.backspaces, commit: r.commit, base_word });
        }
        if uncertain {
            self.pending.key = Some(ch);
            self.pending.repairable = !overtakes;
        }
        self.edit.push_forwarded_char(ch);
        self.firefox.clear();
    }

    /// Offer the word in front of the cursor to the engine as a seed.
    fn seed_from_shadow(&mut self)
        ensures
            final(self).stamps() == old(self).stamps(),
            words::last_word(session::shadow_of(old(self)@)).len() == 0 ==> final(self)@ == old(
                self,
            )@,
            words::last_word(session::shadow_of(old(self)@)).len() > 0 ==> final(self)@ == seeded(
                old(self)@,
                engine::offered(
                    old(self)@.engine,
                    words::last_word(session::shadow_of(old(self)@)),
                ),
                engine::seeds(
                    old(self)@.engine,
                    words::last_word(session::shadow_of(old(self)@)),
                ),
            ),
    {
        let word = words::last_word_of(self.edit.shadow_text()).to_owned();
        if !word.as_str().is_empty() {
            self.context.retroactive = self.engine.feed_context_gated(word.as_str());
        }
    }

    /// Feed one printable character.
    pub fn feed_key(&mut self, ch: char) -> (d: KeyDecision)
        ensures
            (final(self)@, d@) == key_outcome(old(self)@, ch),
            final(self).stamps().action == old(self).stamps().action,
    {
        self.feed_key_at(ch, Instant::now())
    }

    /// Feed a printable character that was typed at `now`.
    pub fn feed_key_at(&mut self, ch: char, now: Instant) -> (d: KeyDecision)
        ensures
            (final(self)@, d@) == key_outcome(old(self)@, ch),
            final(self).stamps() == (Stamps { key: now, ..old(self).stamps() }),
    {
        let ghost start = self@;
        let separated = self.is_after_separator();
        let overtakes = self.is_key_unconfirmed();
        let uncertain = self.is_context_uncertain();
        self.begin_key(ch);
        proof {
            lemma_key_begun_keeps(start, ch);
        }
        let fresh = !overtakes && !separated && self.engine.at_word_beginning();
        if fresh {
            self.seed_from_shadow();
        }
        assert(self@ == key_ready(start, ch));
        let r = self.engine.process_key(ch);
        self.last_keystroke_at = now;
        reveal(key_outcome);
        self.finish_key(ch, uncertain, overtakes, r)
    }

    /// The character that was just forwarded did not go out after all.
    pub fn unrecord_forwarded_char(&mut self)
        ensures
            final(self).stamps() == old(self).stamps(),
            final(self)@ == session::char_unrecorded(old(self)@),
    {
        let speculative = self.pending.edit.is_some();
        self.edit.pop_forwarded_char();
        self.pending = PendingKey::none();
        if speculative {
            self.engine.reset();
            self.context.retroactive = false;
        }
    }

    /// Decide a Backspace from the engine's answer.
    pub fn finish_backspace(&mut self, r: ProcessResult) -> (d: KeyDecision)
        ensures
            final(self).stamps() == old(self).stamps(),
            (final(self)@, d@) == backspace_finished(old(self)@, r@),
    {
        reveal(backspace_finished);
        if r.consumed {
            let method = self.method();
            return KeyDecision::Apply { method, backspaces: r.backspaces, commit: r.commit };
        }
        let n: usize = self.edit.shadow_text().unicode_len();
        let composed = r.backspaces > 0 && n > 0 && self.edit.shadow_text().get_char(n - 1) as u32
            >= 0x80;
        self.edit.pop_forwarded_char();
        if composed {
            self.engine.reset();
            self.context.retroactive = false;
        }
        self.firefox.clear();
        KeyDecision::ForwardRaw
    }

    /// Feed a Backspace.
    pub fn feed_backspace(&mut self) -> (d: KeyDecision)
        ensures
            (final(self)@, d@) == backspace_outcome(old(self)@),
            final(self).stamps().action == old(self).stamps().action,
    {
        self.feed_backspace_at(Instant::now())
    }

    /// Feed a Backspace that was typed at `now`.
    pub fn feed_backspace_at(&mut self, now: Instant) -> (d: KeyDecision)
        ensures
            (final(self)@, d@) == backspace_outcome(old(self)@),
            final(self).stamps() == (Stamps { key: now, ..old(self).stamps() }),
    {
        let r = self.engine.process_backspace();
        self.last_keystroke_at = now;
        self.finish_backspace(r)
    }
}

} // verus!
