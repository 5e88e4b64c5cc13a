//! What holds of grabbed keyboards.
use vstd::prelude::*;

use crate::edit;
use crate::evdev;
use crate::evdev::{Grab, HandlerCall, KeyEvent, KeyInput, KEY_BACKSPACE, KEY_ESC};

verus! {

/// A key other than Escape and the modifiers, pressed while no shortcut is held,
/// that types a character.
pub open spec fn plain_press(g: Grab, ev: KeyInput) -> bool {
    &&& ev.is_key && ev.value == 1
    &&& evdev::modifier_bit(ev.code) is None && ev.code != KEY_ESC
    &&& ev.ch is Some && !evdev::shortcut_held(g.mod_mask)
}

/// The release or the repetition of a key.
pub open spec fn continues(ev: KeyInput, later: KeyInput) -> bool {
    later.is_key && later.value != 1 && later.code == ev.code
}

/// A press that the composition takes emits nothing, and neither do its
/// repetitions and its release: the client sees no release without a press.
pub proof fn law_taken_press_is_silent(
    g: Grab,
    ev: KeyInput,
    later: KeyInput,
    other: edit::Decision,
)
    requires
        plain_press(g, ev),
        continues(ev, later),
        !g.forwarded.contains(ev.code),
    ensures
        ({
            let o = evdev::event_outcome(g, ev, edit::Decision::Consumed);
            &&& o.keys == Seq::<KeyEvent>::empty()
            &&& !o.grab.forwarded.contains(ev.code)
            &&& evdev::event_outcome(o.grab, later, other).keys == Seq::<KeyEvent>::empty()
        }),
{
    reveal(evdev::event_outcome);
    reveal(evdev::pressed);
    reveal(evdev::answered);
    reveal(evdev::continued);
}

/// A press that goes to the client is followed there by its repetitions and its
/// release, and after its release it leaves no mark.
pub proof fn law_forwarded_press_is_released(
    g: Grab,
    ev: KeyInput,
    later: KeyInput,
    other: edit::Decision,
)
    requires
        plain_press(g, ev),
        continues(ev, later),
    ensures
        ({
            let o = evdev::event_outcome(g, ev, edit::Decision::ForwardRaw);
            let p = evdev::event_outcome(o.grab, later, other);
            &&& o.keys == seq![(ev.code, 1i32)]
            &&& o.grab.forwarded.contains(ev.code)
            &&& p.keys == seq![(ev.code, later.value)]
            &&& p.grab.forwarded.contains(ev.code) <==> later.value != 0
        }),
{
    reveal(evdev::event_outcome);
    reveal(evdev::pressed);
    reveal(evdev::answered);
    reveal(evdev::continued);
}

/// Modifiers always go to the client, pressed or released, and are never asked
/// about.
pub proof fn law_modifiers_pass(g: Grab, ev: KeyInput, d: edit::Decision)
    requires
        ev.is_key,
        evdev::modifier_bit(ev.code) is Some,
    ensures
        evdev::event_outcome(g, ev, d).keys == seq![(ev.code, ev.value)],
        evdev::event_outcome(g, ev, d).calls.len() == 0,
{
    reveal(evdev::event_outcome);
    reveal(evdev::modifier_outcome);
}

/// Pressing and releasing a modifier brings the mask back, if it was not held.
pub proof fn law_modifier_released(g: Grab, down: KeyInput, up: KeyInput, d: edit::Decision)
    requires
        down.is_key && up.is_key,
        down.code == up.code,
        down.value == 1 && up.value == 0,
        evdev::modifier_bit(down.code) matches Some(bit) && g.mod_mask & bit == 0,
    ensures
        evdev::event_outcome(evdev::event_outcome(g, down, d).grab, up, d).grab.mod_mask
            == g.mod_mask,
{
    reveal(evdev::event_outcome);
    reveal(evdev::modifier_outcome);
    let bit = evdev::modifier_bit(down.code)->0;
    let m = g.mod_mask;
    assert(m & bit == 0 ==> (m | bit) & !bit == m) by (bit_vector);
}

/// Typing an edit leaves the modifiers as the client sees them, and the keyboards'
/// state, as they were.
pub proof fn law_edit_restores_state(
    g: Grab,
    code: u32,
    method: edit::BackspaceMethod,
    backspaces: usize,
    commit: Seq<char>,
)
    ensures
        evdev::answered(g, code, edit::Decision::Apply { method, backspaces, commit }).0 == g,
{
    reveal(evdev::answered);
}

/// An edit starts with its Backspaces.
pub proof fn law_edit_deletes_first(
    g: Grab,
    code: u32,
    method: edit::BackspaceMethod,
    backspaces: usize,
    commit: Seq<char>,
)
    ensures
        ({
            let keys = evdev::answered(
                g,
                code,
                edit::Decision::Apply { method, backspaces, commit },
            ).1;
            &&& keys.len() >= 2 * backspaces
            &&& forall|i: int|
                0 <= i < 2 * backspaces ==> #[trigger] keys[i] == (KEY_BACKSPACE, if i % 2 == 0 {
                    1i32
                } else {
                    0i32
                })
        }),
{
    reveal(evdev::answered);
    lemma_backspace_keys(backspaces as nat);
}

proof fn lemma_backspace_keys(n: nat)
    ensures
        evdev::backspace_keys(n).len() == 2 * n,
        forall|i: int|
            0 <= i < 2 * n ==> #[trigger] evdev::backspace_keys(n)[i] == (KEY_BACKSPACE, if i % 2
                == 0 {
                1i32
            } else {
                0i32
            }),
    decreases n,
{
    if n > 0 {
        lemma_backspace_keys((n - 1) as nat);
    }
}

/// Three taps of Escape within the time let the keyboards go and drop the session,
/// whatever the modifiers.
pub proof fn law_three_taps_escape(
    g: Grab,
    a: KeyInput,
    b: KeyInput,
    c: KeyInput,
    d: edit::Decision,
)
    requires
        a.is_key && a.code == KEY_ESC && a.value == 1,
        b.is_key && b.code == KEY_ESC && b.value == 1,
        c.is_key && c.code == KEY_ESC && c.value == 1,
        a.now <= b.now <= c.now < a.now + evdev::TAP_WINDOW,
        g.taps.len() == 0,
    ensures
        ({
            let g1 = evdev::event_outcome(g, a, d).grab;
            let g2 = evdev::event_outcome(g1, b, d).grab;
            let o = evdev::event_outcome(g2, c, d);
            &&& o.grab.should_exit
            &&& o.calls == seq![HandlerCall::ClearSession]
            &&& o.grab.taps.len() == 0
        }),
{
    reveal(evdev::event_outcome);
    reveal(evdev::pressed);
    reveal(evdev::answered);
    reveal(evdev::escaped);
    reveal(Seq::filter);
    let g1 = evdev::event_outcome(g, a, d).grab;
    let g2 = evdev::event_outcome(g1, b, d).grab;
    lemma_recent_none(g.taps, a.now);
    assert(g1.taps =~= seq![a.now]);
    lemma_recent_push(Seq::empty(), a.now, b.now);
    lemma_recent_none(Seq::empty(), b.now);
    assert(Seq::<u64>::empty().push(a.now) =~= seq![a.now]);
    assert(g2.taps =~= seq![a.now, b.now]);
    lemma_recent_push(seq![a.now], b.now, c.now);
    lemma_recent_push(Seq::empty(), a.now, c.now);
    lemma_recent_none(Seq::empty(), c.now);
    assert(seq![a.now].push(b.now) =~= seq![a.now, b.now]);
    assert(evdev::recent_taps(seq![a.now, b.now], c.now) =~= seq![a.now, b.now]);
}

proof fn lemma_recent_none(taps: Seq<u64>, now: u64)
    requires
        taps.len() == 0,
    ensures
        evdev::recent_taps(taps, now).len() == 0,
{
    reveal(Seq::filter);
}

proof fn lemma_recent_push(taps: Seq<u64>, t: u64, now: u64)
    requires
        now - t < evdev::TAP_WINDOW,
    ensures
        evdev::recent_taps(taps.push(t), now) == evdev::recent_taps(taps, now).push(t),
{
    reveal(Seq::filter);
    assert(taps.push(t).drop_last() =~= taps);
}

/// A tap of Escape counts for a second: where all others are older, the tap is the first
/// again, and lets nothing go.
pub proof fn law_slow_taps_do_not_escape(g: Grab, ev: KeyInput, d: edit::Decision)
    requires
        ev.is_key && ev.code == 1 && ev.value == 1,
        forall|i: int| 0 <= i < g.taps.len() ==> ev.now - #[trigger] g.taps[i] >= 1_000_000_000,
    ensures
        evdev::event_outcome(g, ev, d).grab.should_exit == g.should_exit,
        evdev::event_outcome(g, ev, d).grab.taps == seq![ev.now],
{
    reveal(evdev::event_outcome);
    reveal(evdev::pressed);
    reveal(evdev::answered);
    lemma_old_taps(g.taps, ev.now);
    assert(evdev::recent_taps(g.taps, ev.now).push(ev.now) =~= seq![ev.now]);
}

proof fn lemma_old_taps(taps: Seq<u64>, now: u64)
    requires
        forall|i: int| 0 <= i < taps.len() ==> now - #[trigger] taps[i] >= 1_000_000_000,
    ensures
        evdev::recent_taps(taps, now).len() == 0,
    decreases taps.len(),
{
    reveal(Seq::filter);
    if taps.len() > 0 {
        let rest = taps.drop_last();
        assert(taps.last() == taps[taps.len() - 1]);
        assert(forall|i: int| 0 <= i < rest.len() ==> #[trigger] rest[i] == taps[i]);
        lemma_old_taps(rest, now);
    }
}

} // verus!
