//! Backspace through the kernel's virtual input device.
use vstd::prelude::*;

use crate::edit::modifiers;
use crate::edit::modifiers::ModifierState;

verus! {

pub const KEY_LEFTSHIFT: u16 = 42;

pub const KEY_LEFTCTRL: u16 = 29;

pub const KEY_LEFTALT: u16 = 56;

pub const KEY_LEFTMETA: u16 = 125;

pub const KEY_BACKSPACE: u16 = 14;

/// One key event: its code, and whether the key goes down.
#[derive(Debug, Clone, Copy, PartialEq, Eq, Structural)]
pub struct KeyEvent {
    pub code: u16,
    pub down: bool,
}

/// The left-side key of each held modifier, in a fixed order.
pub open spec fn held_codes(m: ModifierState) -> Seq<u16> {
    held_code(m, modifiers::SHIFT, KEY_LEFTSHIFT) + held_code(
        m,
        modifiers::CTRL,
        KEY_LEFTCTRL,
    ) + held_code(
        m,
        modifiers::ALT,
        KEY_LEFTALT,
    ) + held_code(m, modifiers::SUPER, KEY_LEFTMETA)
}

/// `code` when the modifier `bit` is held.
pub open spec fn held_code(m: ModifierState, bit: u32, code: u16) -> Seq<u16> {
    if m.bits & bit == bit {
        seq![code]
    } else {
        Seq::empty()
    }
}

/// The same keys all going down, or all going up.
pub open spec fn key_events(codes: Seq<u16>, down: bool) -> Seq<KeyEvent> {
    Seq::new(codes.len(), |i: int| KeyEvent { code: codes[i], down })
}

/// `n` presses and releases of Backspace.
pub open spec fn backspace_events(n: nat) -> Seq<KeyEvent> {
    Seq::new(2 * n, |i: int| KeyEvent { code: KEY_BACKSPACE, down: i % 2 == 0 })
}

/// The left-side keys of the modifiers in `m`.
pub fn modifier_codes(m: ModifierState) -> (v: Vec<u16>)
    ensures
        v@ == held_codes(m),
{
    let mut v: Vec<u16> = Vec::new();
    if m.contains(modifiers::SHIFT) {
        v.push(KEY_LEFTSHIFT);
    }
    if m.contains(modifiers::CTRL) {
        v.push(KEY_LEFTCTRL);
    }
    if m.contains(modifiers::ALT) {
        v.push(KEY_LEFTALT);
    }
    if m.contains(modifiers::SUPER) {
        v.push(KEY_LEFTMETA);
    }
    assert(v@ =~= held_codes(m));
    v
}

/// The key events that delete `n` characters while `held` are held: the modifiers go
/// up first, so that none of them turns Backspace into a shortcut, and down again
/// afterwards.
pub open spec fn planned(n: nat, held: ModifierState) -> Seq<KeyEvent> {
    key_events(held_codes(held), false) + backspace_events(n) + key_events(held_codes(held), true)
}

/// The key events that delete `backspaces` characters while `held` are held.
pub fn backspace_plan(backspaces: usize, held: ModifierState) -> (v: Vec<KeyEvent>)
    ensures
        v@ == planned(backspaces as nat, held),
{
    let codes = modifier_codes(held);
    let mut v: Vec<KeyEvent> = Vec::new();
    for i in 0..codes.len()
        invariant
            codes@ == held_codes(held),
            v@ == key_events(codes@, false).take(i as int),
    {
        v.push(KeyEvent { code: codes[i], down: false });
        assert(v@ =~= key_events(codes@, false).take(i + 1));
    }
    let ghost up = key_events(codes@, false);
    assert(v@ =~= up);
    for i in 0..backspaces
        invariant
            v@ == up + backspace_events(i as nat),
    {
        v.push(KeyEvent { code: KEY_BACKSPACE, down: true });
        v.push(KeyEvent { code: KEY_BACKSPACE, down: false });
        assert(v@ =~= up + backspace_events((i + 1) as nat));
    }
    let ghost mid = v@;
    for i in 0..codes.len()
        invariant
            codes@ == held_codes(held),
            v@ == mid + key_events(codes@, true).take(i as int),
    {
        v.push(KeyEvent { code: codes[i], down: true });
        assert(v@ =~= mid + key_events(codes@, true).take(i + 1));
    }
    assert(key_events(codes@, true).take(codes.len() as int) =~= key_events(codes@, true));
    v
}

/// Whether key `code` is down after `events`, when it was `down` before them.
pub open spec fn down_after(events: Seq<KeyEvent>, code: u16, down: bool) -> bool
    decreases events.len(),
{
    if events.len() == 0 {
        down
    } else if events.last().code == code {
        events.last().down
    } else {
        down_after(events.drop_last(), code, down)
    }
}

proof fn lemma_down_after_concat(a: Seq<KeyEvent>, b: Seq<KeyEvent>, code: u16, down: bool)
    ensures
        down_after(a + b, code, down) == down_after(b, code, down_after(a, code, down)),
    decreases b.len(),
{
    if b.len() == 0 {
        assert(a + b =~= a);
    } else {
        assert((a + b).drop_last() =~= a + b.drop_last());
        lemma_down_after_concat(a, b.drop_last(), code, down);
    }
}

proof fn lemma_down_after_same(codes: Seq<u16>, down: bool, code: u16, before: bool)
    ensures
        codes.contains(code) ==> down_after(key_events(codes, down), code, before) == down,
        !codes.contains(code) ==> down_after(key_events(codes, down), code, before) == before,
    decreases codes.len(),
{
    if codes.len() > 0 {
        lemma_down_after_same(codes.drop_last(), down, code, before);
        assert(key_events(codes, down).drop_last() =~= key_events(codes.drop_last(), down));
        if codes.contains(code) && codes.last() != code {
            let i = codes.index_of(code);
            assert(codes.drop_last()[i] == code);
        }
        if codes.drop_last().contains(code) {
            let i = codes.drop_last().index_of(code);
            assert(codes[i] == code);
        }
    }
}

proof fn lemma_backspaces_keep(n: nat, code: u16, before: bool)
    requires
        code != KEY_BACKSPACE,
    ensures
        down_after(backspace_events(n), code, before) == before,
    decreases n,
{
    if n > 0 {
        let e = backspace_events(n);
        assert(e.drop_last().drop_last() =~= backspace_events((n - 1) as nat));
        lemma_backspaces_keep((n - 1) as nat, code, before);
        reveal_with_fuel(down_after, 3);
    }
}

/// The plan leaves every modifier that it touches held, as it was, and no other
/// key but Backspace changed.
pub proof fn law_plan_restores_modifiers(backspaces: nat, m: ModifierState, code: u16, before: bool)
    requires
        code != KEY_BACKSPACE,
        held_codes(m).contains(code) ==> before,
    ensures
        down_after(planned(backspaces, m), code, before) == before,
{
    let up = key_events(held_codes(m), false);
    let mid = backspace_events(backspaces);
    let dn = key_events(held_codes(m), true);
    lemma_down_after_concat(up + mid, dn, code, before);
    lemma_down_after_concat(up, mid, code, before);
    lemma_down_after_same(held_codes(m), false, code, before);
    lemma_backspaces_keep(backspaces, code, down_after(up, code, before));
    lemma_down_after_same(held_codes(m), true, code, down_after(up + mid, code, before));
}

/// How often Backspace goes down in `events` with no modifier held, when `held` are the
/// modifier keys that are down before them.
pub open spec fn plain_backspaces(events: Seq<KeyEvent>, held: spec_fn(u16) -> bool) -> nat
    decreases events.len(),
{
    if events.len() == 0 {
        0
    } else {
        let front = events.drop_last();
        let n = plain_backspaces(front, held);
        if events.last().code == 14 && events.last().down && !down_after(front, 42, held(42))
            && !down_after(front, 29, held(29)) && !down_after(front, 56, held(56)) && !down_after(
            front,
            125,
            held(125),
        ) {
            n + 1
        } else {
            n
        }
    }
}

proof fn lemma_plain_backspaces(up: Seq<KeyEvent>, n: nat, held: spec_fn(u16) -> bool)
    requires
        !down_after(up, 42, held(42)) && !down_after(up, 29, held(29)) && !down_after(
            up,
            56,
            held(56),
        ) && !down_after(up, 125, held(125)),
    ensures
        plain_backspaces(up + backspace_events(n), held) == plain_backspaces(up, held) + n,
    decreases n,
{
    let b = backspace_events(n);
    if n == 0 {
        assert(up + b =~= up);
    } else {
        let m = (n - 1) as nat;
        let c = backspace_events(m);
        lemma_plain_backspaces(up, m, held);
        let all = up + b;
        assert(all.drop_last().drop_last() =~= up + c);
        assert(all.last() == KeyEvent { code: 14, down: false });
        assert(all.drop_last().last() == KeyEvent { code: 14, down: true });
        lemma_down_after_concat(up, c, 42, held(42));
        lemma_down_after_concat(up, c, 29, held(29));
        lemma_down_after_concat(up, c, 56, held(56));
        lemma_down_after_concat(up, c, 125, held(125));
        lemma_backspaces_keep(m, 42, down_after(up, 42, held(42)));
        lemma_backspaces_keep(m, 29, down_after(up, 29, held(29)));
        lemma_backspaces_keep(m, 56, down_after(up, 56, held(56)));
        lemma_backspaces_keep(m, 125, down_after(up, 125, held(125)));
        assert(plain_backspaces(all.drop_last(), held) == plain_backspaces(up + c, held) + 1);
        assert(plain_backspaces(all, held) == plain_backspaces(all.drop_last(), held));
    }
}

proof fn lemma_no_more_backspaces(front: Seq<KeyEvent>, codes: Seq<u16>, held: spec_fn(u16) -> bool, down: bool)
    requires
        !codes.contains(14),
    ensures
        plain_backspaces(front + key_events(codes, down), held) == plain_backspaces(front, held),
    decreases codes.len(),
{
    let k = key_events(codes, down);
    if codes.len() == 0 {
        assert(front + k =~= front);
    } else {
        let rest = codes.drop_last();
        assert(!rest.contains(14)) by {
            if rest.contains(14) {
                let i = choose|i: int| 0 <= i < rest.len() && rest[i] == 14;
                assert(codes[i] == 14);
            }
        }
        lemma_no_more_backspaces(front, rest, held, down);
        let all = front + k;
        assert(all.drop_last() =~= front + key_events(rest, down));
        assert(codes.contains(codes.last())) by {
            assert(codes[codes.len() - 1] == codes.last());
        }
        assert(all.last().code == codes.last());
    }
}

/// The plan deletes: while it is carried out Backspace goes down as often as characters are
/// to go, each time with none of Shift, Control, Alt and Super held, although the user
/// holds those of `m`.
pub proof fn law_plan_deletes_plainly(backspaces: nat, m: ModifierState)
    ensures
        plain_backspaces(
            planned(backspaces, m),
            (|code: u16|
                code == 42 && m.bits & 0x01 != 0 || code == 29 && m.bits & 0x04 != 0 || code == 56
                    && m.bits & 0x08 != 0 || code == 125 && m.bits & 0x40 != 0),
        ) == backspaces,
{
    let held = (|code: u16|
        code == 42 && m.bits & 0x01 != 0 || code == 29 && m.bits & 0x04 != 0 || code == 56
            && m.bits & 0x08 != 0 || code == 125 && m.bits & 0x40 != 0);
    let b = m.bits;
    assert((b & 0x01 == 0x01) == (b & 0x01 != 0) && (b & 0x04 == 0x04) == (b & 0x04 != 0) && (b
        & 0x08 == 0x08) == (b & 0x08 != 0) && (b & 0x40 == 0x40) == (b & 0x40 != 0))
        by (bit_vector);
    let codes = held_codes(m);
    let up = key_events(codes, false);
    let dn = key_events(codes, true);
    lemma_held_code(m, 0x01, 42, 0);
    lemma_held_code(m, 0x04, 29, 1);
    lemma_held_code(m, 0x08, 56, 2);
    lemma_held_code(m, 0x40, 125, 3);
    lemma_down_after_same(codes, false, 42, held(42));
    lemma_down_after_same(codes, false, 29, held(29));
    lemma_down_after_same(codes, false, 56, held(56));
    lemma_down_after_same(codes, false, 125, held(125));
    assert(!codes.contains(14));
    let none = Seq::<KeyEvent>::empty();
    lemma_no_more_backspaces(none, codes, held, false);
    assert(none + up =~= up);
    lemma_plain_backspaces(up, backspaces, held);
    lemma_no_more_backspaces(up + backspace_events(backspaces), codes, held, true);
}

proof fn lemma_held_code(m: ModifierState, bit: u32, code: u16, place: int)
    requires
        place == 0 && bit == 0x01 && code == 42 || place == 1 && bit == 0x04 && code == 29 || place
            == 2 && bit == 0x08 && code == 56 || place == 3 && bit == 0x40 && code == 125,
    ensures
        held_codes(m).contains(code) == (m.bits & bit == bit),
        !held_codes(m).contains(14),
{
    let a = held_code(m, 0x01, 42);
    let b = held_code(m, 0x04, 29);
    let c = held_code(m, 0x08, 56);
    let d = held_code(m, 0x40, 125);
    let all = a + b + c + d;
    assert(held_codes(m) == all);
    if m.bits & bit == bit {
        let i = if place == 0 {
            0
        } else if place == 1 {
            a.len() as int
        } else if place == 2 {
            (a + b).len() as int
        } else {
            (a + b + c).len() as int
        };
        assert(all[i] == code);
    }
}

} // verus!
