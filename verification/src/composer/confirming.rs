//! What frames are for: edits that were held back are made good, and the engine is brought
//! up to date with the text.
use vstd::prelude::*;

use crate::composer::frames;
use crate::composer::edit_model;
use crate::composer::frames::Frame;
use crate::composer::keys;
use crate::composer::observer;
use crate::composer::repair;
use crate::composer::repair::Retro;
use crate::composer::session;
use crate::composer::session::Session;
use crate::composer::typing;
use crate::edit::DeleteUnit;
use crate::engine;
use crate::engine::{EngineView, Exchange, Reply};
use crate::keystrokes;
use crate::quirks::firefox;
use crate::quirks::firefox::Firefox;
use crate::text;
use crate::words;

verus! {

/// The frame of a client whose cursor stands between `before` and `after`, with nothing
/// selected.
pub open spec fn plain_frame(before: Seq<char>, after: Seq<char>) -> Frame {
    let at = text::utf8_len(before) as u32;
    Frame { text: before + after, cursor: at, anchor: at }
}

/// A text in front of the cursor once a correction is made to it.
pub open spec fn corrected(screen: Seq<char>, r: Option<Retro>) -> Seq<char> {
    match r {
        None => screen,
        Some(e) => screen.take(screen.len() - e.backspaces) + e.commit,
    }
}

/// A text without the word at its end.
pub open spec fn without_word(s: Seq<char>) -> Seq<char> {
    s.take(s.len() - words::last_word(s).len())
}

proof fn lemma_front(before: Seq<char>, after: Seq<char>)
    requires
        text::utf8_len(before + after) <= u32::MAX,
    ensures
        frames::front(plain_frame(before, after)) == before,
        text::utf8_len(before) <= u32::MAX,
{
    let s = before + after;
    let k = before.len() as int;
    text::lemma_utf8_len_concat(before, after);
    assert(s.take(k) =~= before);
    if k < s.len() {
        text::lemma_utf8_len_take(s, k, k + 1);
    }
    text::lemma_chars_within_unique(s, text::utf8_len(before), k);
}

proof fn lemma_shows_key(before: Seq<char>, after: Seq<char>, ch: char, prev: Seq<char>)
    requires
        text::utf8_len(before.push(ch) + after) <= u32::MAX,
        prev == before + after,
    ensures
        words::char_inserted_before(
            prev,
            plain_frame(before.push(ch), after).text,
            plain_frame(before.push(ch), after).cursor as nat,
            ch,
        ),
{
    let f = plain_frame(before.push(ch), after);
    let k = before.len() as int;
    lemma_front(before.push(ch), after);
    text::lemma_utf8_len_concat(before.push(ch), after);
    assert(f.text =~= prev.insert(k, ch));
    assert(f.text.take(k + 1) =~= before.push(ch));
}

/// An edit that was held back is made good. A key waits, and goes out raw; when the client
/// shows it where it was typed, behind the word that the engine's edit rests on, the
/// correction turns the text into what the engine shows for the key. The engine is not
/// asked again.
pub proof fn law_held_back_edits_are_made_good(
    s: Session,
    ch: char,
    before: Seq<char>,
    after: Seq<char>,
    force: bool,
    recent: bool,
)
    requires
        typing::waits(s) && !typing::overtaken(s),
        typing::reply_to_key(s, ch).consumed,
        typing::reply_to_key(s, ch).backspaces <= before.len() < usize::MAX,
        text::utf8_len(before.push(ch) + after) <= u32::MAX,
        s.edit.prev_text == before + after,
        typing::word_in_front(s) == words::last_word(before),
    ensures
        ({
            let mid = keys::key_outcome(s, ch).0;
            let (done, r) = frames::frame_taken(
                mid,
                plain_frame(before.push(ch), after),
                force,
                recent,
            );
            &&& corrected(before.push(ch), r) == engine::shown(
                before,
                ch,
                typing::reply_to_key(s, ch),
            )
            &&& done.edit.strategy.shadow.text == before.push(ch)
            &&& done.engine == mid.engine
            &&& done.pending == session::nothing()
            &&& done.context.retroactive
        }),
{
    let f = plain_frame(before.push(ch), after);
    let mid = keys::key_outcome(s, ch).0;
    let reply = typing::reply_to_key(s, ch);
    typing::law_waiting_keys_are_remembered(s, ch);
    typing::law_keys_keep_the_rest(s, ch);
    lemma_front(before.push(ch), after);
    lemma_shows_key(before, after, ch, mid.edit.prev_text);
    reveal(frames::frame_taken);
    reveal(frames::confirmed);
    assert(frames::front(f).drop_last() =~= before);
    assert(frames::confirmation(mid, f) is Emit);
    let full = before.push(ch);
    assert(full.take(full.len() - (reply.backspaces + 1)) =~= before.take(
        before.len() - reply.backspaces,
    ));
}

proof fn lemma_word_corrected(before: Seq<char>, ch: char, reply: Reply)
    requires
        text::utf8_len(before) <= u32::MAX,
        before.len() < usize::MAX,
    ensures
        corrected(before.push(ch), repair::repair(words::last_word(before), ch, reply))
            == without_word(before) + engine::shown(words::last_word(before), ch, reply),
{
    let word = words::last_word(before);
    let r = repair::repair(word, ch, reply);
    words::law_cursor_at_end(before);
    words::lemma_trailing_word_suffix(before, words::Boundary::Punctuated);
    repair::law_repair_reaches_desired(word.push(ch), engine::shown(word, ch, reply));
    repair::law_repair_stays_in_the_screen(word.push(ch), engine::shown(word, ch, reply));
    let head = without_word(before);
    let full = before.push(ch);
    let m = word.push(ch);
    assert(full =~= head + m);
    if let Some(e) = r {
        let cut = m.take(m.len() - e.backspaces);
        assert(full.take(full.len() - e.backspaces) =~= head + cut);
        assert(head + cut + e.commit =~= head + (cut + e.commit));
    }
}

/// A key whose edit no longer fits is typed again, on an engine that knows the word which
/// stands in front of it: where that engine takes the word, the correction turns the word
/// and the raw key into what it shows, and leaves the text in front of the word alone.
pub proof fn law_keys_are_typed_again(
    s: Session,
    ch: char,
    before: Seq<char>,
    after: Seq<char>,
    force: bool,
    recent: bool,
)
    requires
        s.pending.key == Some(ch) && s.pending.repairable,
        s.pending.stash is Some ==> s.pending.stash->0.base_word != words::last_word(before),
        text::utf8_len(before.push(ch) + after) <= u32::MAX,
        before.len() < usize::MAX,
        s.edit.prev_text == before + after,
        words::last_word(before).len() > 0,
    ensures
        ({
            let f = plain_frame(before.push(ch), after);
            let (done, r) = frames::frame_taken(s, f, force, recent);
            let word = words::last_word(before);
            let k = keystrokes::keys_of_text(word, s.engine.method);
            let n = engine::nature(s.engine);
            let reset = s.engine.asked.push(Exchange::Reset);
            let fed = engine::rendering(s.engine, k) == word && (n.takes)(reset, k);
            let log = reset.push(Exchange::Seed { keys: k, fed: true });
            let reply = typing::made_of(n, log, ch);
            &&& fed ==> corrected(before.push(ch), r) == without_word(before) + engine::shown(
                word,
                ch,
                reply,
            )
            &&& fed ==> done.engine == (EngineView {
                asked: log.push(Exchange::Key { ch, reply }),
                ..s.engine
            })
            &&& !fed ==> r is None
            &&& done.pending == session::nothing()
            &&& done.edit.strategy.shadow.text == before.push(ch)
        }),
{
    let f = plain_frame(before.push(ch), after);
    let word = words::last_word(before);
    let n = engine::nature(s.engine);
    let k = keystrokes::keys_of_text(word, s.engine.method);
    let reset = s.engine.asked.push(Exchange::Reset);
    let log = reset.push(Exchange::Seed { keys: k, fed: true });
    let reply = typing::made_of(n, log, ch);
    lemma_front(before.push(ch), after);
    lemma_shows_key(before, after, ch, s.edit.prev_text);
    reveal(frames::frame_taken);
    reveal(frames::confirmed);
    assert(frames::front(f).drop_last() =~= before);
    assert(frames::confirmation(s, f) is Replay);
    engine::law_requests_keep_rendering(s.engine, Exchange::Reset, k);
    let fed = engine::rendering(s.engine, k) == word && (n.takes)(reset, k);
    if fed {
        text::lemma_utf8_len_concat(before.push(ch), after);
        assert(before.push(ch).drop_last() =~= before);
        lemma_word_corrected(before, ch, reply);
    }
}

/// What the engine is asked because of a frame that settles no key. A frame that is not
/// believed leaves it alone, and so does one that shows typing or confirms the shadow; a
/// deletion makes it start over; text from elsewhere makes it start over with the word at
/// the cursor. An edit that was only supposed goes with the frame that contradicts it.
pub proof fn law_frames_bring_the_engine_up_to_date(
    s: Session,
    f: Frame,
    force: bool,
    recent: bool,
)
    requires
        !frames::settles_key(s, f),
    ensures
        ({
            let after = frames::frame_taken(s, f, force, recent).0;
            let typed = words::one_char_inserted(
                s.edit.prev_text,
                s.edit.prev_cursor as nat,
                f.text,
                f.cursor as nat,
            );
            let confirms = frames::front(f) == s.edit.strategy.shadow.text;
            let deletes = words::span_deleted(
                s.edit.prev_text,
                s.edit.prev_cursor as nat,
                f.text,
                f.cursor as nat,
            );
            let believed = !recent || typed || confirms || force;
            let supposed = if s.pending.stash is Some {
                s.engine.asked.push(Exchange::Reset)
            } else {
                s.engine.asked
            };
            let over = supposed.push(Exchange::Reset);
            let word = words::word_before(
                f.text,
                if f.cursor <= f.anchor {
                    f.cursor as nat
                } else {
                    f.anchor as nat
                },
            );
            let k = keystrokes::keys_of_text(word, s.engine.method);
            let asked = if !believed {
                s.engine.asked
            } else if confirms {
                supposed
            } else if deletes {
                over
            } else if force || (!typed && !recent) {
                if word.len() > 0 && engine::rendering(s.engine, k) == word {
                    over.push(
                        Exchange::Seed {
                            keys: k,
                            fed: (engine::nature(s.engine).takes)(over, k),
                        },
                    )
                } else {
                    over
                }
            } else {
                supposed
            };
            after.engine == (EngineView { asked, ..s.engine })
        }),
{
    reveal(frames::frame_taken);
    reveal(frames::frame_outcome);
    reveal(frames::frame_screened);
    reveal(frames::frame_believed);
    reveal(frames::context_dropped);
    reveal(frames::frame_judgement);
    reveal(frames::frame_deletes);
    let word = frames::insertion_word(f);
    let k = keystrokes::keys_of_text(word, s.engine.method);
    engine::law_requests_keep_rendering(s.engine, Exchange::Reset, k);
    engine::law_requests_keep_rendering(
        session::engine_reset(s.engine),
        Exchange::Reset,
        k,
    );
}

/// Right after an action a frame is believed where it shows typing, or the text that is
/// expected, or where it is asked for; at any other time always. A frame that is believed
/// and shows neither typing nor a deletion is learnt from, once the action is past, and
/// one that is asked for always.
pub proof fn law_belief(recent: bool, typed: bool, deletion: bool, force: bool, confirms: bool)
    ensures
        ({
            let d = observer::judged(recent, typed, deletion, force, confirms);
            &&& force ==> d.trust && d.reseed
            &&& !recent ==> d.trust
            &&& typed || confirms ==> d.trust
            &&& recent && !typed && !confirms && !force ==> !d.trust
            &&& !force && (recent || typed || deletion) ==> !d.reseed
            &&& !recent && !typed && !deletion ==> d.reseed
        }),
{
}

/// A frame that contradicts an edit right after it was made turns to Backspace keys,
/// unless the word was closed meanwhile; one that shows the edit, or comes later, settles
/// it; one that shows the deletion alone settles nothing yet. Without an edit to show,
/// frames say nothing.
pub proof fn law_contradicted_edits_turn_to_keys(
    q: Firefox,
    before: Seq<char>,
    recent: bool,
    retroactive: bool,
)
    ensures
        ({
            let after = firefox::observed(q, before, recent, retroactive);
            let shown = q.expected_echo matches Some(e) && before == e.expected;
            let half = q.expected_echo matches Some(e) && before == e.delete_echo;
            let closed = retroactive && before.len() > 0 && firefox::closes_word(before.last());
            &&& q.expected_echo is None ==> after == q
            &&& half && !shown ==> after == q
            &&& q.expected_echo is Some && !shown && !half && recent && !closed
                ==> after.use_forward_delete && after.expected_echo is None && after.delete_unit
                == DeleteUnit::Chars
            &&& q.expected_echo is Some && (shown || !half && (!recent || closed))
                ==> !after.use_forward_delete && after.expected_echo is None
                && after.delete_unit == DeleteUnit::Bytes
            &&& after.forward_sticky == q.forward_sticky
        }),
{
}

/// A cursor that is counted in characters means the same as one that is counted in bytes.
pub proof fn law_characters_and_bytes_count_alike(before: Seq<char>, after: Seq<char>)
    requires
        text::utf8_len(before + after) <= u32::MAX,
        before.len() <= u32::MAX,
    ensures
        frames::char_frame(before + after, before.len() as u32, before.len() as u32)
            == plain_frame(before, after),
        frames::front(plain_frame(before, after)) == before,
{
    lemma_front(before, after);
    assert((before + after).take(before.len() as int) =~= before);
}

/// A frame is a repetition exactly when nothing in it has changed.
pub proof fn law_repetitions_change_nothing(
    e: edit_model::Edit,
    text: Seq<char>,
    cursor: u32,
    anchor: u32,
)
    ensures
        edit_model::duplicate(e, text, cursor, anchor) <==> edit_model::recorded(
            e,
            text,
            cursor,
            anchor,
        ) == e,
{
    if edit_model::duplicate(e, text, cursor, anchor) {
        assert(e.prev_text =~= text);
    }
}

/// A pause counts from two seconds on, a frame answers an action for a little over a tenth
/// of one, and two dead frames in a row make a dead client.
pub proof fn law_times_and_strikes()
    ensures
        crate::composer::IDLE_MS == 2000,
        crate::composer::RECENT_ACTION_MS == 150,
        crate::composer::SURROUNDING_DEAD_STRIKE_LIMIT == 2,
{
}

/// Dead frames are counted one by one, up to the limit of the count; text in a frame starts
/// the count anew, and an empty frame for an empty shadow says nothing.
pub proof fn law_strikes_are_counted(s: Session, text: Seq<char>, cursor: u32)
    ensures
        ({
            let n = session::strikes_after(s, text, cursor);
            let k = s.liveness.dead_strikes;
            &&& text.len() > 0 ==> n == 0
            &&& text.len() == 0 && cursor == 0 && s.edit.strategy.shadow.text.len() > 0 && k
                < u32::MAX ==> n == k + 1
            &&& text.len() == 0 && (cursor != 0 || s.edit.strategy.shadow.text.len() == 0) ==> n
                == k
        }),
{
}

/// What is known of the text behind a frame that settles no key. Text that the engine
/// learnt from the frame is text from before, and the next key waits on it; a deletion
/// leaves nothing known, and of the last key neither; a frame that only confirms leaves
/// what was known, but for an edit that was supposed. A frame that is believed is awaited
/// no more.
pub proof fn law_frames_and_their_context(s: Session, f: Frame, force: bool, recent: bool)
    requires
        !frames::settles_key(s, f),
    ensures
        ({
            let after = frames::frame_taken(s, f, force, recent).0;
            let typed = words::one_char_inserted(
                s.edit.prev_text,
                s.edit.prev_cursor as nat,
                f.text,
                f.cursor as nat,
            );
            let confirms = frames::front(f) == s.edit.strategy.shadow.text;
            let deletes = words::span_deleted(
                s.edit.prev_text,
                s.edit.prev_cursor as nat,
                f.text,
                f.cursor as nat,
            );
            let believed = !recent || typed || confirms || force;
            let learns = believed && !confirms && !deletes && (force || (!typed && !recent));
            let kept = s.context.retroactive && s.pending.stash is None;
            &&& !believed ==> after.context == s.context && after.last_input_char
                == s.last_input_char
            &&& believed ==> !after.context.await_frame
            &&& believed && !confirms && deletes ==> !after.context.retroactive
                && !after.context.from_frame && after.last_input_char is None
            &&& learns ==> after.context.retroactive == after.context.from_frame
                && after.last_input_char is None
            &&& learns ==> after.context.retroactive == (after.engine.asked.len() > 0 && (
            after.engine.asked.last() matches Exchange::Seed { keys, fed } && fed))
            &&& believed && (confirms || (!deletes && !learns)) ==> after.context.retroactive
                == kept && after.context.from_frame == s.context.from_frame
                && after.last_input_char == s.last_input_char
        }),
{
    reveal(frames::frame_taken);
    reveal(frames::frame_outcome);
    reveal(frames::frame_screened);
    reveal(frames::frame_believed);
    reveal(frames::context_dropped);
    reveal(frames::frame_judgement);
    reveal(frames::frame_deletes);
    let word = frames::insertion_word(f);
    let k = keystrokes::keys_of_text(word, s.engine.method);
    let e = frames::context_dropped(
        frames::frame_believed(frames::frame_screened(s, f, recent), f),
    ).engine;
    let fed = engine::takes(e, word);
    lemma_last_seed(e.asked, k, fed);
    assert(e.asked.len() > 0 && e.asked.last() is Reset);
}

proof fn lemma_last_seed(log: Seq<Exchange>, keys: Seq<char>, fed: bool)
    ensures
        log.push(Exchange::Seed { keys, fed }).len() > 0,
        log.push(Exchange::Seed { keys, fed }).last() == (Exchange::Seed { keys, fed }),
{
}

/// A key that a frame settles is the last that was typed; whatever comes of it, nothing
/// waits any more, the frame is the text that is known, and no other is awaited than
/// before.
pub proof fn law_settled_keys_are_done_with(s: Session, f: Frame, force: bool, recent: bool)
    requires
        frames::settles_key(s, f),
    ensures
        ({
            let after = frames::frame_taken(s, f, force, recent).0;
            &&& after.last_input_char == s.pending.key
            &&& after.pending == session::nothing()
            &&& after.edit.strategy.shadow.text == frames::front(f)
            &&& after.edit.prev_text == f.text && after.edit.prev_cursor == f.cursor
                && after.edit.prev_anchor == f.anchor
            &&& after.context.await_frame == s.context.await_frame
            &&& after.context.from_frame == after.context.retroactive
            &&& after.options == s.options && after.firefox == s.firefox
            &&& after.edit.strategy.method == s.edit.strategy.method
        }),
{
    reveal(frames::frame_taken);
    reveal(frames::confirmed);
}

/// A key is settled by a frame that shows it in front of the cursor, with nothing selected.
pub proof fn law_frames_settle_the_keys_they_show(s: Session, before: Seq<char>, after: Seq<char>, ch: char)
    requires
        text::utf8_len(before.push(ch) + after) <= u32::MAX,
    ensures
        frames::settles_key(s, plain_frame(before.push(ch), after)) == (s.pending.key == Some(ch)),
{
    lemma_front(before.push(ch), after);
    assert(before.push(ch).last() == ch);
}

/// A client that has shown that it deletes wrongly is known not to apply committed strings,
/// from the frame that shows it on; no frame brings them back.
pub proof fn law_wrong_deletions_cost_committed_strings(
    s: Session,
    f: Frame,
    force: bool,
    recent: bool,
)
    requires
        !frames::settles_key(s, f),
    ensures
        ({
            let after = frames::frame_taken(s, f, force, recent).0;
            let q = firefox::observed(s.firefox, frames::front(f), recent, s.context.retroactive);
            &&& after.firefox == q
            &&& q.use_forward_delete || q.forward_sticky ==> !after.commit_string_functional
            &&& !q.use_forward_delete && !q.forward_sticky ==> after.commit_string_functional
                == s.commit_string_functional
        }),
{
    reveal(frames::frame_taken);
    reveal(frames::frame_outcome);
    reveal(frames::frame_screened);
    reveal(frames::frame_believed);
    reveal(frames::context_dropped);
}

/// Both ends of a selection are counted alike.
pub proof fn law_both_ends_are_counted(t: Seq<char>, cursor: u32, anchor: u32)
    requires
        cursor <= t.len() && anchor <= t.len(),
        text::utf8_len(t) <= u32::MAX,
    ensures
        frames::char_frame(t, cursor, anchor).text == t,
        frames::char_frame(t, cursor, anchor).cursor == text::utf8_len(t.take(cursor as int)),
        frames::char_frame(t, cursor, anchor).anchor == text::utf8_len(t.take(anchor as int)),
{
    text::lemma_utf8_len_take(t, cursor as int, t.len() as int);
    text::lemma_utf8_len_take(t, anchor as int, t.len() as int);
    assert(t.take(t.len() as int) =~= t);
}

} // verus!
