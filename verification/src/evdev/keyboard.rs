//! A keyboard as its client sees it.
//!
//! A [`Board`] follows key events the way a client does: which keys are down, which level
//! is chosen, and what each stroke is. What typing a text is for is said in these terms.
use vstd::prelude::*;

use crate::edit;
use crate::evdev;
use crate::evdev::{EmitSpec, Grab, HandlerCall, KeyEvent, KeyInput};

verus! {

/// The modifiers that choose a level of a key.
pub struct Level {
    pub shift: bool,
    pub third: bool,
    pub fifth: bool,
}

/// The level that a mask of modifiers chooses.
pub open spec fn level_of(mods: u32) -> Level {
    Level { shift: mods & 0x01 != 0, third: mods & 0x80 != 0, fifth: mods & 0x20 != 0 }
}

/// A key that was struck, at a level.
pub struct Stroke {
    pub code: u32,
    pub level: Level,
}

/// What a client has seen of a keyboard.
pub struct Board {
    pub level: Level,
    pub down: Set<u32>,
    pub strokes: Seq<Stroke>,
}

/// Left Shift, right Alt and the key that carries the fifth level.
pub open spec fn level_key(code: u32) -> bool {
    code == 42 || code == 100 || code == 92
}

/// Whether a key is down after an event of it: a repetition changes nothing.
pub open spec fn down_at(before: bool, value: i32) -> bool {
    if value == 1 {
        true
    } else if value == 0 {
        false
    } else {
        before
    }
}

/// A key event comes in. A press of a key that is down already is no stroke.
pub open spec fn struck(b: Board, ev: KeyEvent) -> Board {
    let (code, value) = ev;
    if code == 42 {
        Board { level: Level { shift: down_at(b.level.shift, value), ..b.level }, ..b }
    } else if code == 100 {
        Board { level: Level { third: down_at(b.level.third, value), ..b.level }, ..b }
    } else if code == 92 {
        Board { level: Level { fifth: down_at(b.level.fifth, value), ..b.level }, ..b }
    } else if value == 1 && !b.down.contains(code) {
        Board {
            down: b.down.insert(code),
            strokes: b.strokes.push(Stroke { code, level: b.level }),
            ..b
        }
    } else if value == 0 {
        Board { down: b.down.remove(code), ..b }
    } else {
        b
    }
}

/// Key events come in one after the other.
pub open spec fn struck_all(b: Board, keys: Seq<KeyEvent>) -> Board
    decreases keys.len(),
{
    if keys.len() == 0 {
        b
    } else {
        struck(struck_all(b, keys.drop_last()), keys.last())
    }
}

/// The strokes that a text takes: for each character that the table has, its key at its
/// level.
pub open spec fn strokes_of(table: Seq<(char, EmitSpec)>, s: Seq<char>) -> Seq<Stroke>
    decreases s.len(),
{
    if s.len() == 0 {
        Seq::empty()
    } else {
        let rest = strokes_of(table, s.drop_last());
        match evdev::emit_of(table, s.last()) {
            Some(e) => rest.push(Stroke { code: e.keycode, level: level_of(e.mods) }),
            None => rest,
        }
    }
}

/// No character of a text is on a key that chooses a level.
pub open spec fn off_level_keys(table: Seq<(char, EmitSpec)>, s: Seq<char>) -> bool {
    forall|i: int|
        0 <= i < s.len() ==> (evdev::emit_of(table, #[trigger] s[i]) matches Some(e)
            ==> !level_key(e.keycode))
}

/// The entry for a character is one of the table's, and its first; a character without an
/// entry is nowhere in it.
pub proof fn law_entries_are_the_first(table: Seq<(char, EmitSpec)>, c: char)
    ensures
        match evdev::emit_of(table, c) {
            Some(e) => exists|i: int|
                0 <= i < table.len() && #[trigger] table[i] == (c, e) && forall|j: int|
                    0 <= j < i ==> (#[trigger] table[j]).0 != c,
            None => forall|j: int| 0 <= j < table.len() ==> (#[trigger] table[j]).0 != c,
        },
    decreases table.len(),
{
    if table.len() > 0 {
        if table[0].0 == c {
            assert(table[0] == (c, table[0].1));
        } else {
            let rest = table.drop_first();
            law_entries_are_the_first(rest, c);
            assert(forall|j: int| 0 <= j < rest.len() ==> #[trigger] rest[j] == table[j + 1]);
            match evdev::emit_of(rest, c) {
                Some(e) => {
                    let i = choose|i: int|
                        0 <= i < rest.len() && #[trigger] rest[i] == (c, e) && forall|j: int|
                            0 <= j < i ==> (#[trigger] rest[j]).0 != c;
                    assert(table[i + 1] == (c, e));
                    assert forall|j: int| 0 <= j < i + 1 implies (#[trigger] table[j]).0 != c by {
                        if j > 0 {
                            assert(rest[j - 1] == table[j]);
                        }
                    }
                },
                None => {
                    assert forall|j: int| 0 <= j < table.len() implies (#[trigger] table[j]).0
                        != c by {
                        if j > 0 {
                            assert(rest[j - 1] == table[j]);
                        }
                    }
                },
            }
        }
    }
}

proof fn lemma_struck_concat(b: Board, x: Seq<KeyEvent>, y: Seq<KeyEvent>)
    ensures
        struck_all(b, x + y) == struck_all(struck_all(b, x), y),
    decreases y.len(),
{
    if y.len() == 0 {
        assert(x + y =~= x);
    } else {
        assert((x + y).drop_last() =~= x + y.drop_last());
        lemma_struck_concat(b, x, y.drop_last());
    }
}

proof fn lemma_struck_one(b: Board, x: KeyEvent)
    ensures
        struck_all(b, seq![x]) == struck(b, x),
{
    assert(seq![x].drop_last() =~= Seq::<KeyEvent>::empty());
    assert(struck_all(b, seq![x].drop_last()) == b);
}

proof fn lemma_struck_none(b: Board)
    ensures
        struck_all(b, Seq::<KeyEvent>::empty()) == b,
{
}

proof fn lemma_levels(cur: u32, target: u32)
    ensures
        level_of(evdev::leveled(cur, target)) == level_of(target),
{
    assert(((cur & !0xa1u32) | (target & 0xa1u32)) & 0x01u32 == target & 0x01u32) by (bit_vector);
    assert(((cur & !0xa1u32) | (target & 0xa1u32)) & 0x80u32 == target & 0x80u32) by (bit_vector);
    assert(((cur & !0xa1u32) | (target & 0xa1u32)) & 0x20u32 == target & 0x20u32) by (bit_vector);
}

/// The keys that choose a level bring the client to it.
pub proof fn law_level_keys_choose_the_level(b: Board, cur: u32, target: u32)
    requires
        b.level == level_of(cur),
    ensures
        struck_all(b, evdev::level_keys(cur, target)) == (Board { level: level_of(target), ..b }),
{
    let one = evdev::mod_key(cur, target, 0x01, 42);
    let two = evdev::mod_key(cur, target, 0x80, 100);
    let three = evdev::mod_key(cur, target, 0x20, 92);
    assert(evdev::level_keys(cur, target) =~= one + two + three);
    lemma_struck_concat(b, one + two, three);
    lemma_struck_concat(b, one, two);
    let p = lemma_one_level(b, cur, target, 0x01, 42);
    let q = lemma_one_level(p, cur, target, 0x80, 100);
    let r = lemma_one_level(q, cur, target, 0x20, 92);
}

proof fn lemma_one_level(b: Board, cur: u32, target: u32, bit: u32, code: u32) -> (after: Board)
    requires
        bit == 0x01 && code == 42 || bit == 0x80 && code == 100 || bit == 0x20 && code == 92,
        bit == 0x01 ==> b.level.shift == (cur & bit != 0),
        bit == 0x80 ==> b.level.third == (cur & bit != 0),
        bit == 0x20 ==> b.level.fifth == (cur & bit != 0),
    ensures
        after == struck_all(b, evdev::mod_key(cur, target, bit, code)),
        after.down == b.down && after.strokes == b.strokes,
        bit == 0x01 ==> after.level == (Level { shift: target & bit != 0, ..b.level }),
        bit == 0x80 ==> after.level == (Level { third: target & bit != 0, ..b.level }),
        bit == 0x20 ==> after.level == (Level { fifth: target & bit != 0, ..b.level }),
{
    let keys = evdev::mod_key(cur, target, bit, code);
    if keys.len() > 0 {
        assert(keys =~= seq![keys[0]]);
        lemma_struck_one(b, keys[0]);
    }
    struck_all(b, keys)
}

proof fn lemma_typed(g: Grab, s: Seq<char>, b: Board)
    requires
        off_level_keys(g.table, s),
        b.level == level_of(g.emitted_mods),
        b.down.subset_of(g.held),
    ensures
        ({
            let after = struck_all(b, evdev::typed(g, s).0);
            &&& after.level == level_of(evdev::typed(g, s).1)
            &&& after.down.subset_of(g.held)
            &&& after.strokes == b.strokes + strokes_of(g.table, s)
            &&& forall|k: u32| !b.down.contains(k) ==> !after.down.contains(k)
        }),
    decreases s.len(),
{
    if s.len() == 0 {
        assert(b.strokes + strokes_of(g.table, s) =~= b.strokes);
    } else {
        let rest = s.drop_last();
        assert forall|i: int| 0 <= i < rest.len() implies (evdev::emit_of(g.table, #[trigger]
            rest[i]) matches Some(e) ==> !level_key(e.keycode)) by {
            assert(rest[i] == s[i]);
        }
        lemma_typed(g, rest, b);
        assert(s.last() == s[s.len() - 1]);
        if let Some(e) = evdev::emit_of(g.table, s.last()) {
            let (keys, mods) = evdev::typed(g, rest);
            let level = evdev::level_keys(mods, e.mods);
            let up = if g.held.contains(e.keycode) {
                seq![(e.keycode, 0i32)]
            } else {
                Seq::empty()
            };
            let press = seq![(e.keycode, 1i32)];
            let release = seq![(e.keycode, 0i32)];
            let b1 = struck_all(b, keys);
            let b2 = struck_all(b1, level);
            let b3 = struck_all(b2, up);
            let b4 = struck_all(b3, press);
            let b5 = struck_all(b4, release);
            assert(evdev::typed(g, s).0 =~= keys + level + up + press + release);
            lemma_struck_concat(b, keys + level + up + press, release);
            lemma_struck_concat(b, keys + level + up, press);
            lemma_struck_concat(b, keys + level, up);
            lemma_struck_concat(b, keys, level);
            law_level_keys_choose_the_level(b1, mods, e.mods);
            if g.held.contains(e.keycode) {
                lemma_struck_one(b2, (e.keycode, 0i32));
            }
            assert(!b3.down.contains(e.keycode));
            lemma_struck_one(b3, (e.keycode, 1i32));
            lemma_struck_one(b4, (e.keycode, 0i32));
            lemma_levels(mods, e.mods);
            let one = Stroke { code: e.keycode, level: level_of(e.mods) };
            assert(b.strokes + strokes_of(g.table, s) =~= (b.strokes + strokes_of(
                g.table,
                rest,
            )).push(one));
        }
    }
}

/// A text is typed by the keys of its characters, in order, each struck once and at its
/// own level; a key that is held is let go of first, or its stroke would be lost. At the
/// end the client sees the level that it saw before.
pub proof fn law_text_is_struck_at_its_levels(g: Grab, s: Seq<char>, b: Board)
    requires
        off_level_keys(g.table, s),
        b.level == level_of(g.emitted_mods),
        b.down.subset_of(g.held),
    ensures
        ({
            let after = struck_all(b, evdev::text_keys(g, s));
            &&& after.level == b.level
            &&& after.strokes == b.strokes + strokes_of(g.table, s)
            &&& after.down.subset_of(b.down)
        }),
{
    let (keys, mods) = evdev::typed(g, s);
    lemma_typed(g, s, b);
    lemma_struck_concat(b, keys, evdev::level_keys(mods, g.emitted_mods));
    law_level_keys_choose_the_level(struck_all(b, keys), mods, g.emitted_mods);
}

/// The text in front of the cursor once strokes came in: Backspace takes a character
/// away, and any other stroke adds what the keymap has for it.
pub open spec fn text_after(
    keymap: spec_fn(u32, Level) -> Option<char>,
    text: Seq<char>,
    strokes: Seq<Stroke>,
) -> Seq<char>
    decreases strokes.len(),
{
    if strokes.len() == 0 {
        text
    } else {
        let t = text_after(keymap, text, strokes.drop_last());
        let k = strokes.last();
        if k.code == 14 {
            if t.len() > 0 {
                t.drop_last()
            } else {
                t
            }
        } else {
            match keymap(k.code, k.level) {
                Some(c) => t.push(c),
                None => t,
            }
        }
    }
}

/// The keymap types the characters of a text where the table says.
pub open spec fn agrees(
    keymap: spec_fn(u32, Level) -> Option<char>,
    table: Seq<(char, EmitSpec)>,
    s: Seq<char>,
) -> bool {
    forall|i: int|
        0 <= i < s.len() ==> (evdev::emit_of(table, #[trigger] s[i]) matches Some(e)
            && !level_key(e.keycode) && e.keycode != 14 && keymap(e.keycode, level_of(e.mods))
            == Some(s[i]))
}

proof fn lemma_text_concat(
    keymap: spec_fn(u32, Level) -> Option<char>,
    text: Seq<char>,
    x: Seq<Stroke>,
    y: Seq<Stroke>,
)
    ensures
        text_after(keymap, text, x + y) == text_after(keymap, text_after(keymap, text, x), y),
    decreases y.len(),
{
    if y.len() == 0 {
        assert(x + y =~= x);
    } else {
        assert((x + y).drop_last() =~= x + y.drop_last());
        lemma_text_concat(keymap, text, x, y.drop_last());
    }
}

proof fn lemma_text_typed(
    keymap: spec_fn(u32, Level) -> Option<char>,
    table: Seq<(char, EmitSpec)>,
    text: Seq<char>,
    s: Seq<char>,
)
    requires
        agrees(keymap, table, s),
    ensures
        text_after(keymap, text, strokes_of(table, s)) == text + s,
    decreases s.len(),
{
    if s.len() == 0 {
        assert(text + s =~= text);
    } else {
        let rest = s.drop_last();
        assert forall|i: int| 0 <= i < rest.len() implies (evdev::emit_of(table, #[trigger]
            rest[i]) matches Some(e) && !level_key(e.keycode) && e.keycode != 14 && keymap(
            e.keycode,
            level_of(e.mods),
        ) == Some(rest[i])) by {
            assert(rest[i] == s[i]);
        }
        lemma_text_typed(keymap, table, text, rest);
        assert(s.last() == s[s.len() - 1]);
        assert(strokes_of(table, s).drop_last() =~= strokes_of(table, rest));
        assert((text + rest).push(s.last()) =~= text + s);
    }
}

/// Backspace, struck `n` times.
spec fn backspace_strokes(level: Level, n: nat) -> Seq<Stroke> {
    Seq::new(n, |i: int| Stroke { code: 14, level })
}

proof fn lemma_backspaces(b: Board, n: nat)
    requires
        !b.down.contains(14),
    ensures
        struck_all(b, evdev::backspace_keys(n)) == (Board {
            strokes: b.strokes + backspace_strokes(b.level, n),
            ..b
        }),
    decreases n,
{
    if n == 0 {
        assert(b.strokes + backspace_strokes(b.level, 0) =~= b.strokes);
    } else {
        let m = (n - 1) as nat;
        let rest = evdev::backspace_keys(m);
        lemma_backspaces(b, m);
        let press = seq![(14u32, 1i32)];
        let release = seq![(14u32, 0i32)];
        assert(evdev::backspace_keys(n) =~= rest + press + release);
        lemma_struck_concat(b, rest + press, release);
        lemma_struck_concat(b, rest, press);
        let b1 = struck_all(b, rest);
        lemma_struck_one(b1, (14u32, 1i32));
        let b2 = struck(b1, (14u32, 1i32));
        lemma_struck_one(b2, (14u32, 0i32));
        assert(b1.down.insert(14).remove(14) =~= b1.down);
        assert((b.strokes + backspace_strokes(b.level, m)).push(Stroke { code: 14, level: b.level })
            =~= b.strokes + backspace_strokes(b.level, n));
    }
}

proof fn lemma_text_erased(
    keymap: spec_fn(u32, Level) -> Option<char>,
    text: Seq<char>,
    level: Level,
    n: nat,
)
    requires
        n <= text.len(),
    ensures
        text_after(keymap, text, backspace_strokes(level, n)) == text.take(text.len() - n),
    decreases n,
{
    if n == 0 {
        assert(text.take(text.len() as int) =~= text);
    } else {
        let m = (n - 1) as nat;
        lemma_text_erased(keymap, text, level, m);
        assert(backspace_strokes(level, n).drop_last() =~= backspace_strokes(level, m));
        assert(text.take(text.len() - m).drop_last() =~= text.take(text.len() - n));
    }
}

/// An edit does its work through the keys: the last `backspaces` characters in front of
/// the client's cursor give way to the replacement, all of which the keymap has.
pub proof fn law_grabbed_edit_replaces_text(
    g: Grab,
    code: u32,
    method: edit::BackspaceMethod,
    backspaces: usize,
    commit: Seq<char>,
    keymap: spec_fn(u32, Level) -> Option<char>,
    text: Seq<char>,
    b: Board,
)
    requires
        code != 14,
        backspaces <= text.len(),
        agrees(keymap, g.table, commit),
        b.level == level_of(g.emitted_mods),
        b.down.subset_of(g.held) && !b.down.contains(14),
        b.strokes.len() == 0,
    ensures
        ({
            let (after, keys) = evdev::answered(
                g,
                code,
                edit::Decision::Apply { method, backspaces, commit },
            );
            let seen = struck_all(b, keys);
            &&& after == g
            &&& text_after(keymap, text, seen.strokes) == text.take(text.len() - backspaces)
                + commit
            &&& seen.level == b.level
        }),
{
    reveal(evdev::answered);
    let n = backspaces as nat;
    let head = evdev::backspace_keys(n);
    let tail = if commit.len() == 0 {
        Seq::<KeyEvent>::empty()
    } else {
        evdev::text_keys(g, commit)
    };
    let keys = evdev::answered(g, code, edit::Decision::Apply { method, backspaces, commit }).1;
    assert(keys =~= head + tail);
    lemma_struck_concat(b, head, tail);
    lemma_backspaces(b, n);
    let mid = struck_all(b, head);
    if commit.len() > 0 {
        law_text_is_struck_at_its_levels(g, commit, mid);
    } else {
        assert(strokes_of(g.table, commit) =~= Seq::<Stroke>::empty());
        assert(mid.strokes + strokes_of(g.table, commit) =~= mid.strokes);
    }
    let erase = backspace_strokes(b.level, n);
    assert(mid.strokes =~= erase);
    lemma_text_concat(keymap, text, erase, strokes_of(g.table, commit));
    lemma_text_erased(keymap, text, b.level, n);
    lemma_text_typed(keymap, g.table, text.take(text.len() - n), commit);
}

/// A key that types a character is asked about with that character, once, after a pause
/// was looked for; Backspace is asked about as such. Only then are keys typed, and they
/// are those that the answer calls for.
pub proof fn law_presses_are_asked_about(g: Grab, ev: KeyInput, d: edit::Decision)
    requires
        evdev::laws::plain_press(g, ev),
    ensures
        evdev::event_outcome(g, ev, d).calls == seq![
            HandlerCall::CheckIdle,
            if ev.code == 14 {
                HandlerCall::Backspace { answer: d }
            } else {
                HandlerCall::Char { code: ev.code, ch: ev.ch->0, answer: d }
            },
        ],
        d is Consumed ==> evdev::event_outcome(g, ev, d).keys.len() == 0,
        d is ForwardRaw ==> evdev::event_outcome(g, ev, d).keys == seq![(ev.code, 1i32)],
        d is Apply ==> evdev::event_outcome(g, ev, d).keys == evdev::answered(
            (Grab { held: g.held.insert(ev.code), ..g }),
            ev.code,
            d,
        ).1,
{
    reveal(evdev::event_outcome);
    reveal(evdev::pressed);
    reveal(evdev::answered);
}

/// A key that types nothing, or is pressed with a shortcut held, ends the word and goes to
/// the client.
pub proof fn law_other_presses_end_the_word(g: Grab, ev: KeyInput, d: edit::Decision)
    requires
        ev.is_key && ev.value == 1,
        evdev::modifier_bit(ev.code) is None && ev.code != evdev::KEY_ESC,
        ev.ch is None || evdev::shortcut_held(g.mod_mask),
    ensures
        evdev::event_outcome(g, ev, d).keys == seq![(ev.code, 1i32)],
        evdev::event_outcome(g, ev, d).calls == seq![
            HandlerCall::FullReset,
            HandlerCall::ClearLastInputChar,
        ],
{
    reveal(evdev::event_outcome);
    reveal(evdev::pressed);
}

/// Each modifier key is known by its code: both Shifts, both Controls, left Alt, both
/// Supers, the third and the fifth level. Nothing else is a modifier.
pub proof fn law_modifier_keys(code: u32)
    ensures
        evdev::modifier_bit(code) == Some(0x01u32) <==> code == 42 || code == 54,
        evdev::modifier_bit(code) == Some(0x04u32) <==> code == 29 || code == 97,
        evdev::modifier_bit(code) == Some(0x08u32) <==> code == 56,
        evdev::modifier_bit(code) == Some(0x20u32) <==> code == 92,
        evdev::modifier_bit(code) == Some(0x40u32) <==> code == 125 || code == 127,
        evdev::modifier_bit(code) == Some(0x80u32) <==> code == 100,
        evdev::modifier_bit(code) is Some ==> {
            let bit = evdev::modifier_bit(code)->0;
            bit == 0x01 || bit == 0x04 || bit == 0x08 || bit == 0x20 || bit == 0x40 || bit == 0x80
        },
{
}

/// What the client sees of the levels follows the keys that choose them: the level that
/// is kept is the one that the client is at once it heard of the key.
pub proof fn law_seen_level_follows_keys(g: Grab, ev: KeyInput, d: edit::Decision, b: Board)
    requires
        ev.is_key,
        level_key(ev.code),
        ev.value == 0 || ev.value == 1,
        b.level == level_of(g.emitted_mods),
    ensures
        ({
            let o = evdev::event_outcome(g, ev, d);
            struck_all(b, o.keys).level == level_of(o.grab.emitted_mods)
        }),
{
    reveal(evdev::event_outcome);
    reveal(evdev::modifier_outcome);
    let m = g.emitted_mods;
    assert((m | 0x01) & 0x01 != 0 && (m | 0x01) & 0x80 == m & 0x80 && (m | 0x01) & 0x20 == m & 0x20
        && (m | 0x80) & 0x80 != 0 && (m | 0x80) & 0x01 == m & 0x01 && (m | 0x80) & 0x20 == m & 0x20
        && (m | 0x20) & 0x20 != 0 && (m | 0x20) & 0x01 == m & 0x01 && (m | 0x20) & 0x80 == m
        & 0x80) by (bit_vector);
    assert((m & !0x01u32) & 0x01 == 0 && (m & !0x01u32) & 0x80 == m & 0x80 && (m & !0x01u32) & 0x20
        == m & 0x20 && (m & !0x80u32) & 0x80 == 0 && (m & !0x80u32) & 0x01 == m & 0x01 && (m
        & !0x80u32) & 0x20 == m & 0x20 && (m & !0x20u32) & 0x20 == 0 && (m & !0x20u32) & 0x01 == m
        & 0x01 && (m & !0x20u32) & 0x80 == m & 0x80) by (bit_vector);
    assert(0x01u32 & 0xa1u32 == 0x01 && 0x80u32 & 0xa1u32 == 0x80 && 0x20u32 & 0xa1u32 == 0x20)
        by (bit_vector);
    lemma_struck_one(b, (ev.code, ev.value));
}

/// An edit that answers Backspace only deletes, by as many strokes of Backspace as it
/// says.
pub proof fn law_grabbed_backspaces_delete(
    g: Grab,
    method: edit::BackspaceMethod,
    backspaces: usize,
    commit: Seq<char>,
    keymap: spec_fn(u32, Level) -> Option<char>,
    text: Seq<char>,
    b: Board,
)
    requires
        backspaces <= text.len(),
        !b.down.contains(14),
        b.strokes.len() == 0,
    ensures
        ({
            let (after, keys) = evdev::answered(
                g,
                14,
                edit::Decision::Apply { method, backspaces, commit },
            );
            let seen = struck_all(b, keys);
            &&& after == g
            &&& text_after(keymap, text, seen.strokes) == text.take(text.len() - backspaces)
            &&& seen.level == b.level && seen.down == b.down
        }),
{
    reveal(evdev::answered);
    let n = backspaces as nat;
    lemma_backspaces(b, n);
    assert(b.strokes + backspace_strokes(b.level, n) =~= backspace_strokes(b.level, n));
    lemma_text_erased(keymap, text, b.level, n);
}

/// The keys that are held are those that went down and did not come up since.
pub proof fn law_held_keys(held: Set<u32>, code: u32, other: u32)
    ensures
        evdev::held_after(held, code, 1).contains(code),
        !evdev::held_after(held, code, 0).contains(code),
        evdev::held_after(held, code, 2) == held,
        forall|v: i32|
            other != code ==> #[trigger] evdev::held_after(held, code, v).contains(other)
                == held.contains(other),
{
}

/// A modifier counts as held from its press to its release, whatever the others do; a
/// modifier other than Shift makes a shortcut.
pub proof fn law_held_modifiers(g: Grab, ev: KeyInput, d: edit::Decision, bit: u32)
    requires
        ev.is_key,
        evdev::modifier_bit(ev.code) == Some(bit),
        ev.value == 0 || ev.value == 1,
    ensures
        ({
            let m = evdev::event_outcome(g, ev, d).grab.mod_mask;
            &&& (m & bit != 0) == (ev.value == 1)
            &&& m & !bit == g.mod_mask & !bit
        }),
        evdev::shortcut_held(g.mod_mask) == (g.mod_mask & !0x01u32 != 0),
        evdev::event_outcome(g, ev, d).keys == seq![(ev.code, ev.value)],
        evdev::event_outcome(g, ev, d).calls.len() == 0,
{
    reveal(evdev::event_outcome);
    reveal(evdev::modifier_outcome);
    law_modifier_keys(ev.code);
    let m = g.mod_mask;
    assert(bit == 0x01 || bit == 0x04 || bit == 0x08 || bit == 0x20 || bit == 0x40 || bit == 0x80
        ==> (m | bit) & bit != 0 && (m & !bit) & bit == 0 && (m | bit) & !bit == m & !bit && (m
        & !bit) & !bit == m & !bit) by (bit_vector);
}

/// The client is in step with the keyboards: it sees the level that is kept for it, and no
/// key down that nobody holds, nor one whose release it will not be told of.
pub open spec fn in_step(g: Grab, b: Board) -> bool {
    &&& b.level == level_of(g.emitted_mods)
    &&& b.down.subset_of(g.held)
    &&& forall|k: u32| #[trigger]
        b.down.contains(k) ==> !level_key(k) && (evdev::modifier_bit(k) is None
            ==> g.forwarded.contains(k))
}

proof fn lemma_backspaces_let_go(b: Board, n: nat)
    ensures
        struck_all(b, evdev::backspace_keys(n)).level == b.level,
        struck_all(b, evdev::backspace_keys(n)).down.subset_of(b.down),
    decreases n,
{
    if n > 0 {
        let m = (n - 1) as nat;
        let rest = evdev::backspace_keys(m);
        lemma_backspaces_let_go(b, m);
        let press = seq![(14u32, 1i32)];
        let release = seq![(14u32, 0i32)];
        assert(evdev::backspace_keys(n) =~= rest + press + release);
        lemma_struck_concat(b, rest + press, release);
        lemma_struck_concat(b, rest, press);
        let b1 = struck_all(b, rest);
        lemma_struck_one(b1, (14u32, 1i32));
        lemma_struck_one(struck(b1, (14u32, 1i32)), (14u32, 0i32));
    }
}

/// Whatever key comes in and whatever is answered, the client stays in step: so no key
/// sticks, and every text is typed at its levels.
pub proof fn law_client_stays_in_step(g: Grab, ev: KeyInput, d: edit::Decision, b: Board)
    requires
        in_step(g, b),
        ev.code != 54,
        d matches edit::Decision::Apply { method, backspaces, commit } ==> off_level_keys(
            g.table,
            commit,
        ),
    ensures
        ({
            let o = evdev::event_outcome(g, ev, d);
            in_step(o.grab, struck_all(b, o.keys))
        }),
{
    reveal(evdev::event_outcome);
    reveal(evdev::modifier_outcome);
    reveal(evdev::continued);
    reveal(evdev::pressed);
    reveal(evdev::escaped);
    reveal(evdev::answered);
    let o = evdev::event_outcome(g, ev, d);
    let h = Grab { held: evdev::held_after(g.held, ev.code, ev.value), ..g };
    law_held_keys(g.held, ev.code, 0);
    lemma_struck_one(b, (ev.code, ev.value));
    lemma_struck_one(b, (ev.code, 1i32));
    lemma_struck_none(b);
    law_modifier_keys(ev.code);
    if ev.is_key && evdev::modifier_bit(ev.code) is Some {
        let bit = evdev::modifier_bit(ev.code)->0;
        lemma_mask_levels(g.emitted_mods, bit, ev.value);
    } else if ev.is_key && ev.value == 1 {
        if let edit::Decision::Apply { method, backspaces, commit } = d {
            let n = backspaces as nat;
            let head = evdev::backspace_keys(n);
            let tail = evdev::text_keys(h, commit);
            lemma_backspaces_let_go(b, n);
            lemma_struck_concat(b, head, tail);
            law_text_is_struck_at_its_levels(h, commit, struck_all(b, head));
            let t = evdev::tap_counted(h, ev.now);
            lemma_same_text(h, t, commit);
        }
    }
}

proof fn lemma_same_text(g: Grab, h: Grab, s: Seq<char>)
    requires
        g.table == h.table && g.emitted_mods == h.emitted_mods && g.held == h.held,
    ensures
        evdev::text_keys(g, s) == evdev::text_keys(h, s),
        evdev::typed(g, s) == evdev::typed(h, s),
    decreases s.len(),
{
    if s.len() > 0 {
        lemma_same_text(g, h, s.drop_last());
    }
}

proof fn lemma_mask_levels(m: u32, bit: u32, value: i32)
    requires
        bit == 0x01 || bit == 0x04 || bit == 0x08 || bit == 0x20 || bit == 0x40 || bit == 0x80,
    ensures
        ({
            let n = if bit & 0xa1 != 0 {
                evdev::mask_after(m, bit & 0xa1, value)
            } else {
                m
            };
            let l = level_of(m);
            level_of(n) == (Level {
                shift: if bit == 0x01 {
                    down_at(l.shift, value)
                } else {
                    l.shift
                },
                third: if bit == 0x80 {
                    down_at(l.third, value)
                } else {
                    l.third
                },
                fifth: if bit == 0x20 {
                    down_at(l.fifth, value)
                } else {
                    l.fifth
                },
            })
        }),
{
    assert((m | 0x01) & 0x01 != 0 && (m | 0x01) & 0x80 == m & 0x80 && (m | 0x01) & 0x20 == m & 0x20
        && (m | 0x80) & 0x80 != 0 && (m | 0x80) & 0x01 == m & 0x01 && (m | 0x80) & 0x20 == m & 0x20
        && (m | 0x20) & 0x20 != 0 && (m | 0x20) & 0x01 == m & 0x01 && (m | 0x20) & 0x80 == m
        & 0x80) by (bit_vector);
    assert((m & !0x01u32) & 0x01 == 0 && (m & !0x01u32) & 0x80 == m & 0x80 && (m & !0x01u32) & 0x20
        == m & 0x20 && (m & !0x80u32) & 0x80 == 0 && (m & !0x80u32) & 0x01 == m & 0x01 && (m
        & !0x80u32) & 0x20 == m & 0x20 && (m & !0x20u32) & 0x20 == 0 && (m & !0x20u32) & 0x01 == m
        & 0x01 && (m & !0x20u32) & 0x80 == m & 0x80) by (bit_vector);
    assert(0x01u32 & 0xa1u32 == 0x01 && 0x80u32 & 0xa1u32 == 0x80 && 0x20u32 & 0xa1u32 == 0x20
        && 0x04u32 & 0xa1u32 == 0 && 0x08u32 & 0xa1u32 == 0 && 0x40u32 & 0xa1u32 == 0)
        by (bit_vector);
}

} // verus!
