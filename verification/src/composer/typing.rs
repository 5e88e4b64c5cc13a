//! What typing is for: the text that keys leave at the client.
use vstd::prelude::*;

use crate::client;
use crate::client::Client;
use crate::composer::delivery;
use crate::composer::keys;
use crate::composer::session;
use crate::composer::session::Session;
use crate::edit;
use crate::edit::{BackspaceMethod, Channels};
use crate::engine;
use crate::engine::{EngineView, Exchange, Nature, Reply};
use crate::keystrokes;
use crate::text;
use crate::words;

verus! {

/// An edit of the next key would rest on text that the client has yet to confirm.
pub open spec fn waits(s: Session) -> bool {
    &&& s.options.confirm_retroactive_edits
    &&& s.edit.strategy.method == BackspaceMethod::SurroundingText
    &&& s.context.await_frame || s.context.from_frame || s.pending.key is Some
}

/// A key that the client has yet to confirm is overtaken by the next one.
pub open spec fn overtaken(s: Session) -> bool {
    s.edit.strategy.method == BackspaceMethod::SurroundingText && s.pending.key is Some
}

/// The word in front of the cursor.
pub open spec fn word_in_front(s: Session) -> Seq<char> {
    words::last_word(s.edit.strategy.shadow.text)
}

/// The next key continues a word that the engine does not know.
pub open spec fn picks_up(s: Session) -> bool {
    &&& !overtaken(s)
    &&& (engine::nature(s.engine).begins)(s.engine.asked)
    &&& s.last_input_char matches Some(c) ==> ('a' <= c <= 'z' || 'A' <= c <= 'Z')
    &&& word_in_front(s).len() > 0
}

/// What the engine was asked when a key reaches it. A key that overtakes another makes it
/// start over; one that continues a word it does not know has it learn the word first,
/// where typing the word's keys would show the word.
pub open spec fn asked_before_key(s: Session) -> Seq<Exchange> {
    let k = keystrokes::keys_of_text(word_in_front(s), s.engine.method);
    if overtaken(s) {
        s.engine.asked.push(Exchange::Reset)
    } else if picks_up(s) && engine::rendering(s.engine, k) == word_in_front(s) {
        s.engine.asked.push(
            Exchange::Seed { keys: k, fed: (engine::nature(s.engine).takes)(s.engine.asked, k) },
        )
    } else {
        s.engine.asked
    }
}

/// What an engine of nature `n` that was asked `log` makes of a key.
pub open spec fn made_of(n: Nature, log: Seq<Exchange>, ch: char) -> Reply {
    (n.answer)(log, ch)
}

/// What the engine makes of the key.
pub open spec fn reply_to_key(s: Session, ch: char) -> Reply {
    made_of(engine::nature(s.engine), asked_before_key(s), ch)
}

/// The text in front of the cursor once a decision about key `ch` is carried out.
pub open spec fn carried_out(screen: Seq<char>, ch: char, d: edit::Decision) -> Seq<char> {
    match d {
        edit::Decision::Apply { method, backspaces, commit } => if backspaces <= screen.len() {
            screen.take(screen.len() - backspaces) + commit
        } else {
            commit
        },
        edit::Decision::ForwardRaw => screen.push(ch),
        edit::Decision::Consumed => screen,
    }
}

proof fn lemma_key(s: Session, ch: char)
    ensures
        keys::context_uncertain(s) == waits(s),
        keys::key_unconfirmed(s) == overtaken(s),
        keys::key_seeds(s) == picks_up(s),
        keys::key_ready(s, ch).engine == (EngineView { asked: asked_before_key(s), ..s.engine }),
        engine::answer(keys::key_ready(s, ch).engine, ch) == reply_to_key(s, ch),
{
    reveal(keys::context_uncertain);
    reveal(keys::key_unconfirmed);
    reveal(keys::after_separator);
    reveal(keys::key_begun);
}

/// Every key is put to the engine, once, and to the one engine: whatever becomes of the
/// key, the engine was asked about it last, and nothing was asked in between but what
/// brings it up to date.
pub proof fn law_keys_reach_the_engine(s: Session, ch: char)
    ensures
        keys::key_outcome(s, ch).0.engine == (EngineView {
            asked: asked_before_key(s).push(Exchange::Key { ch, reply: reply_to_key(s, ch) }),
            ..s.engine
        }),
{
    reveal(keys::key_outcome);
    reveal(keys::key_finished);
    lemma_key(s, ch);
}

/// What the engine makes of a key is what happens: on every tier, an answer that takes
/// the key becomes an edit with the answer's backspaces and text, and any other leaves
/// the key to the client. Carried out, either turns what is on screen into what the
/// engine shows. Only a key that waits for the client is held back, and goes out raw.
pub proof fn law_keys_become_the_engines_edits(s: Session, ch: char, screen: Seq<char>)
    ensures
        ({
            let d = keys::key_outcome(s, ch).1;
            let r = reply_to_key(s, ch);
            if waits(s) || !r.consumed {
                d is ForwardRaw
            } else {
                d == edit::Decision::Apply {
                    method: s.edit.strategy.method,
                    backspaces: r.backspaces,
                    commit: r.commit,
                }
            }
        }),
        !waits(s) ==> carried_out(screen, ch, keys::key_outcome(s, ch).1) == engine::shown(
            screen,
            ch,
            reply_to_key(s, ch),
        ),
        waits(s) ==> carried_out(screen, ch, keys::key_outcome(s, ch).1) == screen.push(ch),
{
    reveal(keys::key_outcome);
    reveal(keys::key_finished);
    reveal(keys::key_begun);
    lemma_key(s, ch);
}

/// What a screen shows after a reply: the reply's text in the place of its backspaces'
/// characters where it takes the key, and the key itself where it does not.
pub proof fn law_replies_replace_the_end(kept: Seq<char>, gone: Seq<char>, ch: char, r: Reply)
    ensures
        r.consumed && gone.len() == r.backspaces ==> engine::shown(kept + gone, ch, r) == kept
            + r.commit,
        r.consumed && kept.len() == 0 && gone.len() <= r.backspaces ==> engine::shown(
            kept + gone,
            ch,
            r,
        ) == r.commit,
        !r.consumed ==> engine::shown(kept + gone, ch, r) == (kept + gone).push(ch),
{
    let s = kept + gone;
    if r.consumed && gone.len() == r.backspaces {
        assert(s.take(s.len() - r.backspaces) =~= kept);
    }
    if r.consumed && kept.len() == 0 && gone.len() <= r.backspaces {
        assert(words::chars_dropped(s, r.backspaces as nat) =~= Seq::<char>::empty());
        assert(Seq::<char>::empty() + r.commit =~= r.commit);
    }
}

/// A key that waits is remembered, with the engine's edit for it and the word that the
/// edit rests on; it may be put right later only where it overtook no other. A key that
/// does not wait leaves the one that does as it is.
pub proof fn law_waiting_keys_are_remembered(s: Session, ch: char)
    ensures
        ({
            let p = keys::key_outcome(s, ch).0.pending;
            let r = reply_to_key(s, ch);
            if waits(s) {
                &&& p.key == Some(ch)
                &&& p.repairable == !overtaken(s)
                &&& r.consumed ==> p.stash == Some(
                    session::Stash {
                        backspaces: r.backspaces,
                        commit: r.commit,
                        base_word: word_in_front(s),
                    },
                )
                &&& !r.consumed ==> p.stash == if overtaken(s) {
                    None
                } else {
                    s.pending.stash
                }
            } else {
                p.key == s.pending.key && p.repairable == s.pending.repairable && (!overtaken(s)
                    ==> p.stash == s.pending.stash)
            }
        }),
{
    reveal(keys::key_outcome);
    reveal(keys::key_finished);
    reveal(keys::key_begun);
    lemma_key(s, ch);
}

/// A key touches nothing but the word in progress: the tier, the modifiers, the settings,
/// the last frame and what is known of the client stay.
pub proof fn law_keys_keep_the_rest(s: Session, ch: char)
    ensures
        ({
            let after = keys::key_outcome(s, ch).0;
            &&& after.options == s.options
            &&& after.commit_string_functional == s.commit_string_functional
            &&& after.acted == s.acted
            &&& after.liveness == s.liveness
            &&& after.edit == (crate::composer::edit_model::Edit {
                strategy: edit::StrategyView {
                    shadow: after.edit.strategy.shadow,
                    ..s.edit.strategy
                },
                ..s.edit
            })
            &&& after.last_input_char == Some(ch)
            &&& after.firefox.forward_sticky == s.firefox.forward_sticky
        }),
{
    reveal(keys::key_outcome);
    reveal(keys::key_finished);
    reveal(keys::key_begun);
}

/// Backspace is put to the engine too. An answer that takes it becomes an edit with the
/// answer's backspaces and text; any other leaves it to the client, and the shadow loses
/// its last character.
pub proof fn law_backspaces_become_the_engines_edits(s: Session)
    ensures
        ({
            let (after, d) = keys::backspace_outcome(s);
            let r = (engine::nature(s.engine).erasure)(s.engine.asked);
            let asked = s.engine.asked.push(Exchange::Backspace { reply: r });
            let t = s.edit.strategy.shadow.text;
            if r.consumed {
                &&& d == edit::Decision::Apply {
                    method: s.edit.strategy.method,
                    backspaces: r.backspaces,
                    commit: r.commit,
                }
                &&& after == (Session { engine: EngineView { asked, ..s.engine }, ..s })
            } else {
                &&& d is ForwardRaw
                &&& after.edit.strategy.shadow.text == if t.len() > 0 {
                    t.drop_last()
                } else {
                    t
                }
                &&& after.engine == (EngineView { asked: after.engine.asked, ..s.engine })
                &&& after.engine.asked == if r.backspaces > 0 && t.len() > 0 && t.last() as u32
                    >= 0x80 {
                    asked.push(Exchange::Reset)
                } else {
                    asked
                }
                &&& after.pending == s.pending && after.options == s.options
            }
        }),
{
    reveal(keys::backspace_finished);
    let t = s.edit.strategy.shadow.text;
    if t.len() == 0 {
        assert(words::chars_dropped(t, 1) =~= t);
    } else {
        assert(words::chars_dropped(t, 1) =~= t.drop_last());
    }
}

/// An edit that is delivered does its work at the client, whichever way it goes, and the
/// shadow keeps in step; what waits and the settings stay.
pub proof fn law_delivered_edits_replace_text(
    ch: Channels,
    s: Session,
    backspaces: usize,
    commit: Seq<char>,
    serial: u32,
    time: u32,
    c: Client,
)
    requires
        client::in_step(c, s.edit.strategy.shadow),
        backspaces <= s.edit.strategy.shadow.text.len(),
        text::utf8_len(s.edit.strategy.shadow.text) <= u32::MAX,
        s.edit.strategy.method == BackspaceMethod::VkOnly ==> forall|i: int|
            0 <= i < commit.len() ==> ch.keys.contains(#[trigger] commit[i]),
    ensures
        ({
            let calls = delivery::delivery(ch, s, backspaces, commit, serial, time);
            let shown = client::ran(c, serial, s.firefox.delete_unit, calls);
            let kept = delivery::delivered(s, backspaces, commit);
            let repaired = delivery::repair_delivered(s, backspaces, commit);
            &&& shown == client::replaced(c, backspaces as nat, commit)
            &&& client::in_step(shown, kept.edit.strategy.shadow)
            &&& client::in_step(shown, repaired.edit.strategy.shadow)
            &&& kept.edit.strategy.method == s.edit.strategy.method
            &&& kept.options == s.options && kept.pending == s.pending
            &&& kept.last_input_char == s.last_input_char
            &&& repaired.engine == s.engine && repaired.context == s.context
            &&& !s.context.retroactive ==> kept.engine == s.engine && kept.context == s.context
        }),
{
    reveal(delivery::delivery);
    reveal(delivery::delivered);
    reveal(delivery::emitted);
    reveal(delivery::refreshed);
    reveal(delivery::echo_expected);
    let unit = s.firefox.delete_unit;
    let shadow = s.edit.strategy.shadow;
    if delivery::forced_to_keys(s, backspaces, commit) {
        client::law_forwarded_edit_replaces_text(
            ch,
            shadow,
            backspaces,
            commit,
            serial,
            time,
            true,
            unit,
            c,
        );
    } else {
        client::law_edit_replaces_text(
            ch,
            s.edit.strategy.method,
            shadow,
            backspaces,
            commit,
            serial,
            time,
            unit,
            c,
        );
    }
}

/// A text input: the composition, and the client that it serves.
pub struct Desk {
    pub session: Session,
    pub client: Client,
}

/// A key is typed: its decision is carried out at the client.
pub open spec fn keyed(ch: Channels, d: Desk, key: char, serial: u32, time: u32) -> Desk {
    let (after, decision) = keys::key_outcome(d.session, key);
    match decision {
        edit::Decision::Apply { method, backspaces, commit } => Desk {
            session: delivery::delivered(after, backspaces, commit),
            client: client::ran(
                d.client,
                serial,
                after.firefox.delete_unit,
                delivery::delivery(ch, after, backspaces, commit, serial, time),
            ),
        },
        edit::Decision::ForwardRaw => Desk {
            session: after,
            client: client::inserted(d.client, seq![key]),
        },
        edit::Decision::Consumed => Desk { session: after, ..d },
    }
}

/// Keys are typed one after the other.
pub open spec fn all_keyed(ch: Channels, d: Desk, typed: Seq<char>, serial: u32, time: u32) -> Desk
    decreases typed.len(),
{
    if typed.len() == 0 {
        d
    } else {
        keyed(ch, all_keyed(ch, d, typed.drop_last(), serial, time), typed.last(), serial, time)
    }
}

/// What an engine that was asked `log` is asked when keys are typed on it alone.
pub open spec fn put_to(n: Nature, log: Seq<Exchange>, typed: Seq<char>) -> Seq<Exchange>
    decreases typed.len(),
{
    if typed.len() == 0 {
        log
    } else {
        let l = put_to(n, log, typed.drop_last());
        l.push(Exchange::Key { ch: typed.last(), reply: made_of(n, l, typed.last()) })
    }
}

/// What such an engine shows for the keys.
pub open spec fn composed(n: Nature, log: Seq<Exchange>, typed: Seq<char>) -> Seq<char>
    decreases typed.len(),
{
    if typed.len() == 0 {
        Seq::empty()
    } else {
        let t = composed(n, log, typed.drop_last());
        let r = made_of(n, put_to(n, log, typed.drop_last()), typed.last());
        if r.consumed {
            t.take(t.len() - r.backspaces) + r.commit
        } else {
            t.push(typed.last())
        }
    }
}

/// Along the keys the engine takes back no more than it has shown, and all of the text
/// fits.
pub open spec fn composes_within(
    n: Nature,
    log: Seq<Exchange>,
    front: Seq<char>,
    typed: Seq<char>,
) -> bool
    decreases typed.len(),
{
    text::utf8_len(front + composed(n, log, typed)) <= u32::MAX && (typed.len() > 0 ==> {
        let r = made_of(n, put_to(n, log, typed.drop_last()), typed.last());
        composes_within(n, log, front, typed.drop_last()) && (r.consumed ==> r.backspaces
            <= composed(n, log, typed.drop_last()).len())
    })
}

/// Nothing waits for the client, and no edit so far was made to text that was not typed.
pub open spec fn settled(s: Session) -> bool {
    &&& s.pending.key is None
    &&& !s.context.await_frame && !s.context.from_frame && !s.context.retroactive
}

/// An engine is in the middle of a word once it was asked about a letter.
pub open spec fn follows_words(n: Nature) -> bool {
    forall|log: Seq<Exchange>|
        log.len() > 0 && (log.last() matches Exchange::Key { ch, reply } && ('a' <= ch <= 'z'
            || 'A' <= ch <= 'Z')) ==> !#[trigger] (n.begins)(log)
}

proof fn lemma_keyed(ch: Channels, d: Desk, key: char, serial: u32, time: u32)
    requires
        client::in_step(d.client, d.session.edit.strategy.shadow),
        settled(d.session),
        !picks_up(d.session),
        text::utf8_len(d.session.edit.strategy.shadow.text) <= u32::MAX,
        d.session.edit.strategy.method == BackspaceMethod::VkOnly ==> forall|c: char|
            ch.keys.contains(c),
        ({
            let r = made_of(engine::nature(d.session.engine), d.session.engine.asked, key);
            r.consumed ==> r.backspaces <= d.session.edit.strategy.shadow.text.len()
        }),
    ensures
        ({
            let r = made_of(engine::nature(d.session.engine), d.session.engine.asked, key);
            let e = keyed(ch, d, key, serial, time);
            let t = d.session.edit.strategy.shadow.text;
            &&& client::in_step(e.client, e.session.edit.strategy.shadow)
            &&& settled(e.session)
            &&& e.session.edit.strategy.method == d.session.edit.strategy.method
            &&& e.session.last_input_char == Some(key)
            &&& e.session.engine == (EngineView {
                asked: d.session.engine.asked.push(Exchange::Key { ch: key, reply: r }),
                ..d.session.engine
            })
            &&& e.client == if r.consumed {
                client::replaced(d.client, r.backspaces as nat, r.commit)
            } else {
                client::inserted(d.client, seq![key])
            }
            &&& e.session.edit.strategy.shadow.text == if r.consumed {
                t.take(t.len() - r.backspaces) + r.commit
            } else {
                t.push(key)
            }
        }),
{
    let s = d.session;
    law_keys_reach_the_engine(s, key);
    law_keys_become_the_engines_edits(s, key, Seq::empty());
    law_keys_keep_the_rest(s, key);
    reveal(keys::key_outcome);
    reveal(keys::key_finished);
    reveal(keys::key_begun);
    lemma_key(s, key);
    let (after, decision) = keys::key_outcome(s, key);
    let r = made_of(engine::nature(s.engine), s.engine.asked, key);
    let t = s.edit.strategy.shadow.text;
    assert(r == reply_to_key(s, key));
    if r.consumed {
        law_delivered_edits_replace_text(
            ch,
            after,
            r.backspaces,
            r.commit,
            serial,
            time,
            d.client,
        );
        reveal(delivery::delivered);
        reveal(delivery::emitted);
        reveal(delivery::refreshed);
        reveal(delivery::echo_expected);
    } else {
        client::lemma_ends_with_more(d.client.before, t, seq![key]);
        assert(t + seq![key] =~= t.push(key));
    }
}

proof fn lemma_mid_word(n: Nature, log: Seq<Exchange>, key: char, r: Reply, after: EngineView)
    requires
        follows_words(n),
        after.asked == log.push(Exchange::Key { ch: key, reply: r }),
        'a' <= key <= 'z' || 'A' <= key <= 'Z',
    ensures
        !(n.begins)(after.asked),
{
    assert(after.asked.last() == (Exchange::Key { ch: key, reply: r }));
}

/// Typing composes: keys that are typed one after the other leave at the client what was
/// there, followed by what the engine shows for these keys, and nothing else changes.
/// This holds on every tier, word after word.
pub proof fn law_typing_composes(ch: Channels, d: Desk, typed: Seq<char>, serial: u32, time: u32)
    requires
        client::in_step(d.client, d.session.edit.strategy.shadow),
        settled(d.session),
        !picks_up(d.session),
        follows_words(engine::nature(d.session.engine)),
        composes_within(
            engine::nature(d.session.engine),
            d.session.engine.asked,
            d.session.edit.strategy.shadow.text,
            typed,
        ),
        d.session.edit.strategy.method == BackspaceMethod::VkOnly ==> forall|c: char|
            ch.keys.contains(c),
    ensures
        ({
            let n = engine::nature(d.session.engine);
            let log = d.session.engine.asked;
            let e = all_keyed(ch, d, typed, serial, time);
            let shown = composed(n, log, typed);
            &&& e.client == (Client { before: d.client.before + shown, ..d.client })
            &&& e.session.edit.strategy.shadow.text == d.session.edit.strategy.shadow.text + shown
            &&& client::in_step(e.client, e.session.edit.strategy.shadow)
            &&& settled(e.session)
            &&& e.session.edit.strategy.method == d.session.edit.strategy.method
            &&& e.session.engine == (EngineView {
                asked: put_to(n, log, typed),
                ..d.session.engine
            })
            &&& !picks_up(e.session)
        }),
    decreases typed.len(),
{
    let n = engine::nature(d.session.engine);
    let log = d.session.engine.asked;
    let front = d.session.edit.strategy.shadow.text;
    if typed.len() == 0 {
        assert(d.client.before + Seq::<char>::empty() =~= d.client.before);
        assert(front + Seq::<char>::empty() =~= front);
    } else {
        let rest = typed.drop_last();
        let key = typed.last();
        law_typing_composes(ch, d, rest, serial, time);
        let m = all_keyed(ch, d, rest, serial, time);
        let t = composed(n, log, rest);
        assert(composes_within(n, log, front, rest));
        assert(text::utf8_len(front + t) <= u32::MAX);
        lemma_keyed(ch, m, key, serial, time);
        let e = keyed(ch, m, key, serial, time);
        let r = made_of(n, put_to(n, log, rest), key);
        let b = d.client.before;
        assert(d.client.selected =~= Seq::<char>::empty());
        if r.consumed {
            assert((b + t).take((b + t).len() - r.backspaces) + r.commit =~= b + composed(
                n,
                log,
                typed,
            ));
            assert((front + t).take((front + t).len() - r.backspaces) + r.commit =~= front
                + composed(n, log, typed));
        } else {
            assert(b + t + seq![key] =~= b + composed(n, log, typed));
            assert((front + t).push(key) =~= front + composed(n, log, typed));
        }
        assert(engine::nature(m.session.engine) == n);
        if 'a' <= key <= 'z' || 'A' <= key <= 'Z' {
            lemma_mid_word(n, put_to(n, log, rest), key, r, e.session.engine);
        }
    }
}

proof fn lemma_ascii(c: char)
    ensures
        ('\0' <= c <= '\u{7f}') == (c as u32 <= 0x7f),
{
}

/// Which way an edit goes. Text that was there before the word was typed, and goes back to
/// raw keys with letters of several bytes at its end, is deleted by Backspace keys, and so
/// is everything once a client has shown that it deletes wrongly; any other edit goes by
/// the tier, and on surrounding text it is one deletion, one text and one commit.
pub proof fn law_edits_choose_their_way(
    ch: Channels,
    s: Session,
    backspaces: usize,
    commit: Seq<char>,
    serial: u32,
    time: u32,
)
    ensures
        ({
            let calls = delivery::delivery(ch, s, backspaces, commit, serial, time);
            let t = s.edit.strategy.shadow.text;
            let back_to_keys = s.context.retroactive && 0 < backspaces < t.len() && (forall|i: int|
                0 <= i < commit.len() ==> #[trigger] commit[i] as u32 <= 0x7f) && exists|i: int|
                t.len() - backspaces <= i < t.len() && #[trigger] t[i] as u32 >= 0x80;
            let by_keys = s.firefox.use_forward_delete || s.firefox.forward_sticky || back_to_keys;
            &&& by_keys ==> calls == edit::forward_key::calls(
                ch,
                backspaces,
                commit,
                serial,
                time,
                true,
            )
            &&& !by_keys && s.edit.strategy.method == BackspaceMethod::SurroundingText
                && !edit::shadow::selects(s.edit.strategy.shadow) ==> calls.len() == 3
                && calls[0] is DeleteSurroundingText && calls[1] == edit::SinkCall::CommitString(
                commit,
            ) && calls[2] == edit::SinkCall::Commit(serial)
        }),
{
    reveal(delivery::delivery);
    reveal(delivery::reverts_multibyte);
    let t = s.edit.strategy.shadow.text;
    let n = backspaces as nat;
    assert(vstd::utf8::is_ascii_chars(commit) == (forall|i: int|
        0 <= i < commit.len() ==> #[trigger] commit[i] as u32 <= 0x7f)) by {
        if forall|i: int| 0 <= i < commit.len() ==> #[trigger] commit[i] as u32 <= 0x7f {
            assert forall|i: int| 0 <= i < commit.len() implies '\0' <= #[trigger] commit[i]
                <= '\u{7f}' by {
                lemma_ascii(commit[i]);
            }
        }
        if vstd::utf8::is_ascii_chars(commit) {
            assert forall|i: int| 0 <= i < commit.len() implies #[trigger] commit[i] as u32
                <= 0x7f by {
                lemma_ascii(commit[i]);
            }
        }
    }
    if delivery::wide_tail(t, n) {
        let i = choose|i: int|
            0 <= i < t.len() && t.len() - n <= i && text::char_width(#[trigger] t[i]) > 1;
        assert(t[i] as u32 >= 0x80);
    }
    if exists|i: int| t.len() - backspaces <= i < t.len() && #[trigger] t[i] as u32 >= 0x80 {
        let i = choose|i: int| t.len() - backspaces <= i < t.len() && #[trigger] t[i] as u32 >= 0x80;
        if 0 <= i {
            assert(text::char_width(t[i]) > 1);
        }
    }
}

/// The engine follows an edit of text that was there before: it starts over with the word
/// that is left. Any other edit it knows already.
pub proof fn law_engine_follows_the_text(s: Session, backspaces: usize, commit: Seq<char>)
    ensures
        ({
            let after = delivery::delivered(s, backspaces, commit);
            let word = words::last_word(after.edit.strategy.shadow.text);
            let over = s.engine.asked.push(Exchange::Reset);
            let k = keystrokes::keys_of_text(word, s.engine.method);
            let renders = word.len() > 0 && engine::rendering(s.engine, k) == word;
            let fed = (engine::nature(s.engine).takes)(over, k);
            if s.context.retroactive && backspaces > 0 {
                &&& after.engine == (EngineView {
                    asked: if renders {
                        over.push(Exchange::Seed { keys: k, fed })
                    } else {
                        over
                    },
                    ..s.engine
                })
                &&& after.context.retroactive == (renders && fed)
            } else {
                after.engine == s.engine && after.context == s.context
            }
        }),
{
    reveal(delivery::delivered);
    reveal(delivery::emitted);
    reveal(delivery::refreshed);
    reveal(delivery::echo_expected);
    let e = delivery::emitted(s, backspaces, commit);
    let word = words::last_word(e.edit.strategy.shadow.text);
    let k = keystrokes::keys_of_text(word, s.engine.method);
    engine::law_requests_keep_rendering(s.engine, Exchange::Reset, k);
}

/// After an edit on surrounding text the client is expected to show the shadow, or on the
/// way there the text without what is deleted.
pub proof fn law_edits_expect_their_echo(s: Session, backspaces: usize, commit: Seq<char>)
    requires
        backspaces <= s.edit.strategy.shadow.text.len(),
    ensures
        ({
            let after = delivery::delivered(s, backspaces, commit);
            let t = s.edit.strategy.shadow.text;
            if backspaces > 0 && s.edit.strategy.method == BackspaceMethod::SurroundingText {
                after.firefox.expected_echo matches Some(e) && e.expected
                    == after.edit.strategy.shadow.text && e.delete_echo == t.take(
                    t.len() - backspaces,
                )
            } else {
                after.firefox.expected_echo == s.firefox.expected_echo
            }
        }),
{
    reveal(delivery::delivered);
    reveal(delivery::emitted);
    reveal(delivery::refreshed);
    reveal(delivery::echo_expected);
}

/// A reset forgets the word: the engine starts over, nothing waits, nothing is supposed of
/// the text or of the client's echoes, and a frame is awaited. The settings, the tier and
/// the modifiers stay. The larger one forgets the last frame, too.
pub proof fn law_resets_forget_the_word(s: Session)
    ensures
        ({
            let r = session::composition_reset(s);
            let f = session::fully_reset(s);
            &&& r.engine == (EngineView {
                asked: s.engine.asked.push(Exchange::Reset),
                ..s.engine
            }) && f.engine == r.engine
            &&& r.edit.strategy.shadow.text.len() == 0 && f.edit.strategy.shadow.text.len() == 0
            &&& r.last_input_char is None && f.last_input_char is None
            &&& r.pending == session::nothing() && f.pending == session::nothing()
            &&& !r.context.retroactive && !r.context.from_frame && r.context.await_frame
            &&& f.context == r.context
            &&& r.firefox.expected_echo is None && !r.firefox.use_forward_delete
                && !r.firefox.forward_sticky && f.firefox == r.firefox
            &&& r.edit.prev_text == s.edit.prev_text && r.edit.prev_cursor == s.edit.prev_cursor
            &&& f.edit.prev_text.len() == 0 && f.edit.prev_cursor == 0 && f.edit.prev_anchor == 0
            &&& r.options == s.options && f.options == s.options
            &&& r.edit.strategy.method == s.edit.strategy.method && f.edit.strategy.method
                == s.edit.strategy.method
            &&& f.edit.strategy.modifiers == s.edit.strategy.modifiers
        }),
{
}

/// A raw key that did not go out after all leaves no trace: the shadow loses it, nothing
/// waits for it, and an engine that composed with it starts over.
pub proof fn law_withheld_keys_leave_no_trace(s: Session)
    ensures
        ({
            let n = session::char_unrecorded(s);
            let t = s.edit.strategy.shadow.text;
            &&& t.len() > 0 ==> n.edit.strategy.shadow.text == t.drop_last()
            &&& n.pending == session::nothing()
            &&& n.engine == if s.pending.stash is Some {
                EngineView { asked: s.engine.asked.push(Exchange::Reset), ..s.engine }
            } else {
                s.engine
            }
            &&& n.options == s.options && n.last_input_char == s.last_input_char
        }),
{
    let t = s.edit.strategy.shadow.text;
    if t.len() > 0 {
        assert(words::chars_dropped(t, 1) =~= t.drop_last());
    }
}

/// What is known of the text behind a key. A key that continues a word which the engine
/// does not know makes it text from before where the engine takes it; a letter keeps what
/// is known, and anything else ends it. No frame is awaited once a key came. What is
/// expected of the client is forgotten with a raw key, and with the end of a word.
pub proof fn law_keys_and_their_context(s: Session, ch: char)
    ensures
        ({
            let (after, d) = keys::key_outcome(s, ch);
            let letter = 'a' <= ch <= 'z' || 'A' <= ch <= 'Z';
            let k = keystrokes::keys_of_text(word_in_front(s), s.engine.method);
            &&& !after.context.await_frame
            &&& after.context.from_frame == (s.context.from_frame && letter)
            &&& after.context.retroactive == if picks_up(s) {
                engine::rendering(s.engine, k) == word_in_front(s) && (engine::nature(
                    s.engine,
                ).takes)(s.engine.asked, k)
            } else {
                s.context.retroactive && letter && !overtaken(s)
            }
            &&& d is ForwardRaw || !letter ==> after.firefox.expected_echo is None
                && !after.firefox.use_forward_delete
            &&& d is Apply && letter ==> after.firefox == s.firefox
        }),
{
    reveal(keys::key_outcome);
    reveal(keys::key_finished);
    reveal(keys::key_begun);
    lemma_key(s, ch);
}

/// A client that counts characters is told so once: the next deletion on surrounding text is
/// measured in bytes again. Backspace keys use up nothing, and once they are forced they
/// stay.
pub proof fn law_units_are_used_up(s: Session, backspaces: usize, commit: Seq<char>)
    ensures
        ({
            let e = delivery::emitted(s, backspaces, commit);
            let by_keys = delivery::forced_to_keys(s, backspaces, commit);
            &&& e.firefox.delete_unit == if by_keys {
                s.firefox.delete_unit
            } else {
                edit::DeleteUnit::Bytes
            }
            &&& e.firefox.forward_sticky == (s.firefox.forward_sticky
                || s.firefox.use_forward_delete)
            &&& e.firefox.use_forward_delete == s.firefox.use_forward_delete
            &&& e.firefox.expected_echo == s.firefox.expected_echo
            &&& e.engine == s.engine && e.context == s.context && e.pending == s.pending
            &&& delivery::repair_delivered(s, backspaces, commit).firefox.expected_echo is None
        }),
{
    reveal(delivery::emitted);
}

} // verus!
