//! What holds of a composer over any sequence of keys, frames and edits.
use vstd::prelude::*;

use crate::composer::delivery;
use crate::composer::edit_model;
use crate::composer::frames;
use crate::composer::frames::Frame;
use crate::composer::keys;
use crate::composer::repair;
use crate::composer::repair::Retro;
use crate::composer::session;
use crate::composer::session::Session;
use crate::edit;
use crate::engine;
use crate::words;

verus! {

proof fn lemma_key_effects(s: Session, after: Session, ch: char, d: edit::Decision)
    requires
        (after, d) == keys::key_outcome(s, ch),
    ensures
        after.commit_string_functional == s.commit_string_functional,
        after.options == s.options,
        d is Apply ==> after.edit == s.edit && after.pending.key == s.pending.key,
        d is ForwardRaw ==> session::shadow_of(after) == session::shadow_of(s).push(ch),
        d !is Consumed,
        keys::context_uncertain(s) ==> d is ForwardRaw && after.pending.key == Some(ch),
        !keys::context_uncertain(s) ==> after.pending.key == s.pending.key,
        after.last_input_char == Some(ch),
        after.edit.prev_text == s.edit.prev_text,
{
    reveal(keys::key_outcome);
    reveal(keys::key_begun);
    reveal(keys::key_finished);
}

/// Live composition is never kept back: only an uncertain context makes a key
/// wait, and then the key goes out raw.
pub proof fn law_only_uncertain_keys_wait(s: Session, after: Session, ch: char, d: edit::Decision)
    requires
        (after, d) == keys::key_outcome(s, ch),
    ensures
        keys::context_uncertain(s) ==> d is ForwardRaw && after.pending.key == Some(ch),
        !keys::context_uncertain(s) ==> after.pending.key == s.pending.key,
{
    lemma_key_effects(s, after, ch, d);
}

/// A key that goes out raw stands at the end of the shadow; one that leads to an
/// edit leaves the shadow to the edit.
pub proof fn law_key_and_shadow(s: Session, after: Session, ch: char, d: edit::Decision)
    requires
        (after, d) == keys::key_outcome(s, ch),
    ensures
        d is ForwardRaw ==> session::shadow_of(after) == session::shadow_of(s).push(ch),
        d is Apply ==> session::shadow_of(after) == session::shadow_of(s),
        d is ForwardRaw || d is Apply,
{
    lemma_key_effects(s, after, ch, d);
}

/// Taking a forwarded key back restores the shadow from before it.
pub proof fn law_unrecord_undoes_forward(s: Session, after: Session, ch: char, d: edit::Decision)
    requires
        (after, d) == keys::key_outcome(s, ch),
        d is ForwardRaw,
    ensures
        session::shadow_of(session::char_unrecorded(after)) == session::shadow_of(s),
        session::char_unrecorded(after).pending == session::nothing(),
{
    lemma_key_effects(s, after, ch, d);
    assert(words::chars_dropped(session::shadow_of(s).push(ch), 1) =~= session::shadow_of(s));
}

proof fn lemma_frame_effects(
    s: Session,
    after: Session,
    f: Frame,
    force: bool,
    recent: bool,
    r: Option<Retro>,
)
    requires
        (after, r) == frames::frame_taken(s, f, force, recent),
    ensures
        !s.commit_string_functional ==> !after.commit_string_functional,
        after.options == s.options,
        s.pending.key is None ==> r is None && after.pending.key is None,
        session::tier(after) == session::tier(s),
        frames::settles_key(s, f) ==> after.pending == session::nothing() && session::shadow_of(
            after,
        ) == frames::front(f) && edit_model::duplicate(after.edit, f.text, f.cursor, f.anchor),
        !frames::settles_key(s, f) && frames::frame_judgement(s, f, force, recent).trust
            ==> after.pending == session::nothing() && session::shadow_of(after) == frames::front(f)
            && edit_model::duplicate(after.edit, f.text, f.cursor, f.anchor),
        !frames::settles_key(s, f) && !frames::frame_judgement(s, f, force, recent).trust
            ==> after.edit == s.edit && after.engine == s.engine && after.pending == s.pending
            && after.context == s.context,
{
    reveal(frames::frame_taken);
    if frames::settles_key(s, f) {
        reveal(frames::confirmed);
    } else {
        reveal(frames::frame_outcome);
        reveal(frames::frame_screened);
        reveal(frames::frame_believed);
        reveal(frames::context_dropped);
    }
}

/// A frame that is believed becomes the shadow, ends every wait, and is
/// recognised when it comes again.
pub proof fn law_believed_frame_is_ground_truth(
    s: Session,
    after: Session,
    f: Frame,
    force: bool,
    recent: bool,
    r: Option<Retro>,
)
    requires
        (after, r) == frames::frame_taken(s, f, force, recent),
        frames::settles_key(s, f) || frames::frame_judgement(s, f, force, recent).trust,
    ensures
        session::shadow_of(after) == frames::front(f),
        after.pending == session::nothing(),
        edit_model::duplicate(after.edit, f.text, f.cursor, f.anchor),
{
    lemma_frame_effects(s, after, f, force, recent, r);
}

/// A frame that is not believed changes neither the shadow, nor the engine, nor
/// what waits.
pub proof fn law_dropped_frame_changes_nothing(
    s: Session,
    after: Session,
    f: Frame,
    force: bool,
    recent: bool,
    r: Option<Retro>,
)
    requires
        (after, r) == frames::frame_taken(s, f, force, recent),
        !frames::settles_key(s, f),
        !frames::frame_judgement(s, f, force, recent).trust,
    ensures
        after.edit == s.edit,
        after.engine == s.engine,
        after.pending == s.pending,
        after.context == s.context,
        r is None,
{
    lemma_frame_effects(s, after, f, force, recent, r);
    reveal(frames::frame_taken);
}

/// A repair answers a pending key and nothing else: where no key waits, a frame
/// never leads to one.
pub proof fn law_repairs_answer_pending_keys(
    s: Session,
    after: Session,
    f: Frame,
    force: bool,
    recent: bool,
    r: Option<Retro>,
)
    requires
        (after, r) == frames::frame_taken(s, f, force, recent),
        r is Some,
    ensures
        s.pending.key is Some,
        s.pending.repairable,
        words::char_inserted_before(
            s.edit.prev_text,
            f.text,
            f.cursor as nat,
            s.pending.key->0,
        ),
{
    reveal(frames::frame_taken);
    reveal(frames::confirmed);
}

/// Without frame confirmation no key ever waits: keys and frames both keep it so.
pub proof fn law_without_confirmation_nothing_waits(
    s: Session,
    after_key: Session,
    ch: char,
    d: edit::Decision,
    after_frame: Session,
    f: Frame,
    force: bool,
    recent: bool,
    r: Option<Retro>,
)
    requires
        !s.options.confirm_retroactive_edits,
        s.pending.key is None,
        (after_key, d) == keys::key_outcome(s, ch),
        (after_frame, r) == frames::frame_taken(s, f, force, recent),
    ensures
        after_key.pending.key is None,
        !after_key.options.confirm_retroactive_edits,
        after_frame.pending.key is None,
        !after_frame.options.confirm_retroactive_edits,
        r is None,
{
    reveal(keys::context_uncertain);
    lemma_key_effects(s, after_key, ch, d);
    lemma_frame_effects(s, after_frame, f, force, recent, r);
}

/// Committed strings, once lost, are lost for the life of the composer: neither a
/// key, nor a frame, nor an edit brings them back.
pub proof fn law_commit_string_ratchet(
    s: Session,
    after_key: Session,
    ch: char,
    d: edit::Decision,
    after_frame: Session,
    f: Frame,
    force: bool,
    recent: bool,
    r: Option<Retro>,
    backspaces: usize,
    commit: Seq<char>,
)
    requires
        !s.commit_string_functional,
        (after_key, d) == keys::key_outcome(s, ch),
        (after_frame, r) == frames::frame_taken(s, f, force, recent),
    ensures
        !after_key.commit_string_functional,
        !after_frame.commit_string_functional,
        !delivery::delivered(s, backspaces, commit).commit_string_functional,
        !delivery::repair_delivered(s, backspaces, commit).commit_string_functional,
        !keys::backspace_outcome(s).0.commit_string_functional,
{
    lemma_key_effects(s, after_key, ch, d);
    lemma_frame_effects(s, after_frame, f, force, recent, r);
    reveal(delivery::delivered);
    reveal(delivery::refreshed);
    reveal(delivery::emitted);
    reveal(delivery::echo_expected);
    reveal(keys::backspace_finished);
}

/// The edit that answers a confirmed key turns what the frame shows into what the
/// engine composed: the word in front of the key, with the engine's edit applied.
pub proof fn law_emitted_stash_shows_composition(s: Session, f: Frame)
    requires
        frames::settles_key(s, f),
        frames::confirmation(s, f) is Emit,
        s.pending.stash->0.backspaces < usize::MAX,
        s.pending.stash->0.backspaces <= frames::front(f).drop_last().len(),
    ensures
        frames::confirmed(s, f).1 is Some,
        ({
            let e = frames::confirmed(s, f).1->0;
            words::chars_dropped(frames::front(f), e.backspaces as nat) + e.commit
                == words::chars_dropped(
                frames::front(f).drop_last(),
                s.pending.stash->0.backspaces as nat,
            ) + s.pending.stash->0.commit
        }),
{
    reveal(frames::confirmed);
    let e = frames::confirmed(s, f).1->0;
    assert(words::chars_dropped(frames::front(f), e.backspaces as nat) =~= words::chars_dropped(
        frames::front(f).drop_last(),
        s.pending.stash->0.backspaces as nat,
    ));
}

/// The same for a replayed key: the repair turns the word on screen, raw key and
/// all, into what the engine shows for it.
pub proof fn law_replayed_repair_shows_composition(base: Seq<char>, ch: char, reply: engine::Reply)
    requires
        reply.consumed,
        base.len() < usize::MAX,
    ensures
        match repair::repair(base, ch, reply) {
            None => base.push(ch) == engine::shown(base, ch, reply),
            Some(e) => words::chars_dropped(base.push(ch), e.backspaces as nat) + e.commit
                == engine::shown(base, ch, reply),
        },
{
    repair::law_repair_reaches_desired(base.push(ch), engine::shown(base, ch, reply));
}

} // verus!
