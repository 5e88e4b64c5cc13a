//! Edits out, through the tier that works.
use vstd::prelude::*;
use vstd::string::*;

use crate::composer::edit_model;
use crate::composer::frames;
use crate::composer::session;
use crate::composer::session::Session;
use crate::composer::{Composer, Context};
use crate::edit;
use crate::edit::{BackspaceMethod, DeleteUnit, OutputSink};
use crate::engine;
use crate::engine::SyllableEngine;
use crate::quirks::firefox;
use crate::text;
use crate::words;

verus! {

/// Some of the last `n` characters takes more than one byte.
pub open spec fn wide_tail(s: Seq<char>, n: nat) -> bool {
    exists|i: int| 0 <= i < s.len() && s.len() - n <= i && text::char_width(#[trigger] s[i]) > 1
}

/// A composed word in visible text goes partly back to raw keys. Clients that
/// mismeasure a byte delete show it here, where nothing else hides it.
#[verifier::opaque]
pub open spec fn reverts_multibyte(s: Session, backspaces: usize, commit: Seq<char>) -> bool {
    &&& s.context.retroactive
    &&& backspaces > 0
    &&& vstd::utf8::is_ascii_chars(commit)
    &&& backspaces < session::shadow_of(s).len()
    &&& wide_tail(session::shadow_of(s), backspaces as nat)
}

/// The edit goes out as Backspace keys, whatever the tier.
pub open spec fn forced_to_keys(s: Session, backspaces: usize, commit: Seq<char>) -> bool {
    s.firefox.use_forward_delete || s.firefox.forward_sticky || reverts_multibyte(
        s,
        backspaces,
        commit,
    )
}

/// What an edit emits, into a sink that types `ch`.
#[verifier::opaque]
pub open spec fn delivery(
    ch: edit::Channels,
    s: Session,
    backspaces: usize,
    commit: Seq<char>,
    serial: u32,
    time: u32,
) -> Seq<edit::SinkCall> {
    if forced_to_keys(s, backspaces, commit) {
        edit::forward_key::calls(ch, backspaces, commit, serial, time, true)
    } else {
        edit::tier_calls(
            ch,
            session::tier(s),
            s.edit.strategy.shadow,
            backspaces,
            commit,
            serial,
            time,
            s.firefox.delete_unit,
        )
    }
}

/// The state once an edit is emitted.
#[verifier::opaque]
pub open spec fn emitted(s: Session, backspaces: usize, commit: Seq<char>) -> Session {
    let forced = forced_to_keys(s, backspaces, commit);
    Session {
        edit: edit_model::with_shadow(
            s.edit,
            if forced {
                edit::forward_key::shadow_after(s.edit.strategy.shadow, backspaces, commit)
            } else {
                edit::tier_shadow(
                    session::tier(s),
                    s.edit.strategy.shadow,
                    backspaces,
                    commit,
                )
            },
        ),
        firefox: firefox::Firefox {
            forward_sticky: s.firefox.forward_sticky || s.firefox.use_forward_delete,
            delete_unit: if forced {
                s.firefox.delete_unit
            } else {
                DeleteUnit::Bytes
            },
            ..s.firefox
        },
        ..s
    }
}

/// A retroactive edit that deleted seeds the engine anew, from the word that is
/// now in front of the cursor.
pub open spec fn refreshes(s: Session, backspaces: usize) -> bool {
    backspaces > 0 && s.context.retroactive
}

/// The state once the engine's word follows an edit.
#[verifier::opaque]
pub open spec fn refreshed(s: Session, backspaces: usize) -> Session {
    if refreshes(s, backspaces) {
        let e = session::engine_reset(s.engine);
        let word = words::last_word(session::shadow_of(s));
        Session {
            engine: frames::word_offered(e, word),
            context: Context { retroactive: frames::word_seeds(e, word), ..s.context },
            ..s
        }
    } else {
        s
    }
}

/// The echo that the client is expected to show for an edit: `before` is the
/// shadow that the edit started from.
#[verifier::opaque]
pub open spec fn echo_expected(s: Session, before: Seq<char>, backspaces: usize) -> Session {
    if backspaces > 0 && session::tier(s) == BackspaceMethod::SurroundingText {
        Session {
            firefox: firefox::Firefox {
                expected_echo: Some(
                    firefox::Echo {
                        expected: session::shadow_of(s),
                        delete_echo: words::chars_dropped(before, backspaces as nat),
                    },
                ),
                ..s.firefox
            },
            ..s
        }
    } else {
        s
    }
}

/// The state once an edit is delivered and the engine follows it.
#[verifier::opaque]
pub open spec fn delivered(s: Session, backspaces: usize, commit: Seq<char>) -> Session {
    echo_expected(
        refreshed(emitted(s, backspaces, commit), backspaces),
        session::shadow_of(s),
        backspaces,
    )
}

/// Whether some of the last `n` characters takes more than one byte.
fn has_wide_tail(s: &str, n: usize) -> (b: bool)
    ensures
        b == wide_tail(s@, n as nat),
{
    let len: usize = s.unicode_len();
    let from: usize = len.saturating_sub(n);
    let mut i: usize = from;
    while i < len
        invariant
            from <= i <= len,
            len == s@.len(),
            from == if n <= len {
                len - n
            } else {
                0
            },
            forall|j: int| from <= j < i ==> text::char_width(#[trigger] s@[j]) <= 1,
        decreases len - i,
    {
        let c: char = s.get_char(i);
        if text::width(c) > 1 {
            assert(text::char_width(s@[i as int]) > 1);
            return true;
        }
        i = i + 1;
    }
    false
}

impl<E: SyllableEngine> Composer<E> {
    /// Whether a composed word goes partly back to raw keys.
    fn is_multibyte_revert(&self, backspaces: usize, commit: &str) -> (b: bool)
        ensures
            b == reverts_multibyte(self@, backspaces, commit@),
    {
        reveal(reverts_multibyte);
        self.context.retroactive && backspaces > 0 && commit.is_ascii() && backspaces
            < self.edit.shadow_text().unicode_len() && has_wide_tail(
            self.edit.shadow_text(),
            backspaces,
        )
    }

    /// Let the engine's word follow a retroactive edit. Only the current word is
    /// offered: the whole shadow may hold words that the render gate refuses.
    pub fn refresh_retroactive_context_after_apply(&mut self, backspaces: usize)
        ensures
            final(self).stamps() == old(self).stamps(),
            final(self)@ == refreshed(old(self)@, backspaces),
    {
        reveal(refreshed);
        if backspaces == 0 || !self.context.retroactive {
            return;
        }
        let word = words::last_word_of(self.edit.shadow_text()).to_owned();
        self.engine.reset();
        self.context.retroactive = !word.as_str().is_empty() && self.engine.feed_context_gated(
            word.as_str(),
        );
    }

    /// Deliver an edit through the configured tier alone.
    pub fn apply<S: OutputSink>(
        &mut self,
        backspaces: usize,
        commit: &str,
        time: u32,
        sink: &mut S,
    )
        ensures
            final(self).stamps() == old(self).stamps(),
            old(sink).sound() ==> final(sink).sound(),
            final(sink).channels() == old(sink).channels(),
            final(self)@ == refreshed(
                (Session {
                    edit: edit_model::with_shadow(
                        old(self)@.edit,
                        edit::tier_shadow(
                            session::tier(old(self)@),
                            old(self)@.edit.strategy.shadow,
                            backspaces,
                            commit@,
                        ),
                    ),
                    ..old(self)@
                }),
                backspaces,
            ),
            final(sink).log() == old(sink).log() + edit::tier_calls(
                old(sink).channels(),
                session::tier(old(self)@),
                old(self)@.edit.strategy.shadow,
                backspaces,
                commit@,
                0,
                time,
                DeleteUnit::Bytes,
            ),
    {
        self.edit.apply(backspaces, commit, 0, time, sink, DeleteUnit::Bytes);
        self.refresh_retroactive_context_after_apply(backspaces);
    }

    /// Emit an edit. Once a stale echo was seen, deletes stay on Backspace keys
    /// for this text input.
    fn emit_edit<S: OutputSink>(
        &mut self,
        backspaces: usize,
        commit: &str,
        serial: u32,
        time: u32,
        sink: &mut S,
    )
        ensures
            final(self).stamps() == old(self).stamps(),
            old(sink).sound() ==> final(sink).sound(),
            final(sink).channels() == old(sink).channels(),
            final(self)@ == emitted(old(self)@, backspaces, commit@),
            final(sink).log() == old(sink).log() + delivery(
                old(sink).channels(),
                old(self)@,
                backspaces,
                commit@,
                serial,
                time,
            ),
    {
        reveal(emitted);
        reveal(delivery);
        let unit = self.firefox.delete_unit();
        let forced = self.firefox.use_forward_delete() || self.firefox.forward_sticky()
            || self.is_multibyte_revert(backspaces, commit);
        if self.firefox.use_forward_delete() {
            self.firefox.arm_forward_sticky();
        }
        if forced {
            self.edit.apply_forward_key(backspaces, commit, serial, time, sink);
        } else {
            self.edit.apply(backspaces, commit, serial, time, sink, unit);
            self.firefox.reset_delete_unit_after_use();
        }
    }

    /// Expect the client to echo an edit that started from `before`.
    fn expect_echo(&mut self, before: &str, backspaces: usize)
        ensures
            final(self).stamps() == old(self).stamps(),
            final(self)@ == echo_expected(old(self)@, before@, backspaces),
    {
        reveal(echo_expected);
        if backspaces > 0 && self.method() == BackspaceMethod::SurroundingText {
            let expected = self.edit.shadow_text().to_owned();
            let delete_echo = words::prefix_after_char_delete(before, backspaces);
            self.firefox.record_expected_echo(expected, delete_echo);
        }
    }

    /// Deliver an edit, and let the engine follow it.
    pub fn apply_to_sink<S: OutputSink>(
        &mut self,
        backspaces: usize,
        commit: &str,
        serial: u32,
        time: u32,
        sink: &mut S,
    )
        ensures
            final(self).stamps() == old(self).stamps(),
            old(sink).sound() ==> final(sink).sound(),
            final(sink).channels() == old(sink).channels(),
            final(self)@ == delivered(old(self)@, backspaces, commit@),
            final(sink).log() == old(sink).log() + delivery(
                old(sink).channels(),
                old(self)@,
                backspaces,
                commit@,
                serial,
                time,
            ),
    {
        let before = self.edit.shadow_text().to_owned();
        self.emit_edit(backspaces, commit, serial, time, sink);
        self.refresh_retroactive_context_after_apply(backspaces);
        self.expect_echo(before.as_str(), backspaces);
        reveal(delivered);
    }

    /// Deliver a repair that a frame justified. The engine already holds the
    /// composition that the repair shows, with the history that a new seed would
    /// lose, so it is left alone; and the frames that follow belong to this
    /// transaction, so no echo is expected.
    pub fn apply_confirmed_repair_to_sink<S: OutputSink>(
        &mut self,
        backspaces: usize,
        commit: &str,
        serial: u32,
        time: u32,
        sink: &mut S,
    )
        ensures
            final(self).stamps() == old(self).stamps(),
            old(sink).sound() ==> final(sink).sound(),
            final(sink).channels() == old(sink).channels(),
            final(self)@ == repair_delivered(old(self)@, backspaces, commit@),
            final(sink).log() == old(sink).log() + delivery(
                old(sink).channels(),
                old(self)@,
                backspaces,
                commit@,
                serial,
                time,
            ),
    {
        self.emit_edit(backspaces, commit, serial, time, sink);
        self.firefox.forget_expected_echo();
    }
}

/// The state once a repair that a frame justified is delivered.
pub open spec fn repair_delivered(s: Session, backspaces: usize, commit: Seq<char>) -> Session {
    let e = emitted(s, backspaces, commit);
    Session { firefox: firefox::Firefox { expected_echo: None, ..e.firefox }, ..e }
}

/// Once a stale echo has moved deletes to Backspace keys, every further edit goes
/// out that way, until the composition is reset.
pub proof fn law_forced_keys_stick(
    s: Session,
    backspaces: usize,
    commit: Seq<char>,
    again: usize,
    other: Seq<char>,
)
    requires
        s.firefox.use_forward_delete || s.firefox.forward_sticky,
    ensures
        emitted(s, backspaces, commit).firefox.forward_sticky,
        forced_to_keys(emitted(s, backspaces, commit), again, other),
        !session::composition_reset(s).firefox.forward_sticky,
{
    reveal(emitted);
}

/// An edit leaves in the shadow what it was meant to show, whichever way it goes
/// out, as long as nothing is selected.
pub proof fn law_edit_shows_commit(s: Session, backspaces: usize, commit: Seq<char>)
    requires
        s.edit.strategy.shadow.selected_before_chars == 0,
    ensures
        session::shadow_of(emitted(s, backspaces, commit)) == words::chars_dropped(
            session::shadow_of(s),
            backspaces as nat,
        ) + commit,
{
    reveal(emitted);
}

proof fn lemma_backspaces_commit_nothing(time: u32, n: nat)
    ensures
        forall|i: int|
            0 <= i < edit::backspace_calls(time, n).len() ==> (#[trigger] edit::backspace_calls(
                time,
                n,
            )[i]) is VkKey,
    decreases n,
{
    if n > 0 {
        lemma_backspaces_commit_nothing(time, (n - 1) as nat);
    }
}

/// On the forward-key tier a sink that has keysyms for the replacement is never handed
/// a committed string.
pub proof fn law_keysyms_replace_strings(
    ch: edit::Channels,
    s: Session,
    backspaces: usize,
    commit: Seq<char>,
    serial: u32,
    time: u32,
)
    requires
        session::tier(s) == BackspaceMethod::ForwardKey,
        ch.keysyms.contains(commit),
    ensures
        ({
            let calls = delivery(ch, s, backspaces, commit, serial, time);
            forall|i: int|
                0 <= i < calls.len() ==> !((#[trigger] calls[i]) is CommitString) && !(
                calls[i] is Commit)
        }),
{
    reveal(delivery);
    lemma_backspaces_commit_nothing(time, backspaces as nat);
}

/// An edit is followed by its own expected echo: a frame that shows exactly the
/// new shadow clears the expectation.
pub proof fn law_own_echo_is_healthy(
    s: Session,
    before: Seq<char>,
    backspaces: usize,
    recent: bool,
    retroactive: bool,
)
    requires
        backspaces > 0,
        session::tier(s) == BackspaceMethod::SurroundingText,
    ensures
        firefox::observed(
            echo_expected(s, before, backspaces).firefox,
            session::shadow_of(s),
            recent,
            retroactive,
        ) == firefox::cleared(s.firefox),
{
    reveal(echo_expected);
}

} // verus!
