//! Grabbed keyboards.
//!
//! [`EvdevAdapter`] sees every event of the keyboards that are grabbed, asks the
//! composition about those that may compose, and says which keys to press on the
//! virtual keyboard instead.
use vstd::prelude::*;

use std::collections::HashSet;

use crate::edit;
use crate::edit::KeyDecision;

pub mod keyboard;
pub mod laws;
pub mod session;

verus! {

/// Codes of keys.
pub const KEY_BACKSPACE: u32 = 14;

pub const KEY_ESC: u32 = 1;

pub const MOD_LEFTCTRL: u32 = 29;

pub const MOD_LEFTSHIFT: u32 = 42;

pub const MOD_RIGHTSHIFT: u32 = 54;

pub const MOD_LEFTALT: u32 = 56;

/// Carries the fifth level of our keymap.
pub const MOD_HENKAN: u32 = 92;

pub const MOD_RIGHTCTRL: u32 = 97;

pub const MOD_RIGHTALT: u32 = 100;

pub const MOD_LEFTMETA: u32 = 125;

pub const MOD_RIGHTMETA: u32 = 127;

/// Bits of the modifiers in a keymap.
pub const XKB_SHIFT_BIT: u32 = 0x01;

pub const XKB_CONTROL_BIT: u32 = 0x04;

pub const XKB_MOD1_BIT: u32 = 0x08;

/// Fifth level.
pub const XKB_MOD3_BIT: u32 = 0x20;

pub const XKB_MOD4_BIT: u32 = 0x40;

/// Third level.
pub const XKB_MOD5_BIT: u32 = 0x80;

/// The modifiers that choose a level of a key: Shift, third and fifth level.
pub const LEVEL_BITS: u32 = 0xa1;

/// How long, in nanoseconds, a tap of Escape counts.
pub const TAP_WINDOW: u64 = 1_000_000_000;

/// The name of our own virtual keyboard.
pub fn own_device_name() -> (s: &'static str)
    ensures
        s@ == "daklak"@,
{
    "daklak"
}

/// A keyboard is grabbed unless it is our own.
pub fn is_foreign_keyboard(name: &str, has_letter_keys: bool) -> (b: bool)
    ensures
        b == (has_letter_keys && name@ != "daklak"@),
{
    has_letter_keys && *name != *own_device_name()
}

/// How one character is typed on our keymap.
#[derive(Debug, Clone, Copy, PartialEq, Eq, Structural)]
pub struct EmitSpec {
    pub keycode: u32,
    pub mods: u32,
}

/// The characters of our keymap.
#[derive(Debug)]
pub struct EmitTable {
    pub entries: Vec<(char, EmitSpec)>,
}

/// How `c` is typed: the first entry for it.
pub open spec fn emit_of(entries: Seq<(char, EmitSpec)>, c: char) -> Option<EmitSpec>
    decreases entries.len(),
{
    if entries.len() == 0 {
        None
    } else if entries[0].0 == c {
        Some(entries[0].1)
    } else {
        emit_of(entries.drop_first(), c)
    }
}

impl EmitTable {
    pub fn char_to_emit(&self, c: char) -> (r: Option<EmitSpec>)
        ensures
            r == emit_of(self.entries@, c),
    {
        let ghost all = self.entries@;
        assert(all.skip(0) =~= all);
        for i in 0..self.entries.len()
            invariant
                all == self.entries@,
                emit_of(all, c) == emit_of(all.skip(i as int), c),
        {
            assert(all.skip(i as int)[0] == all[i as int]);
            assert(all.skip(i as int).drop_first() =~= all.skip(i + 1));
            if self.entries[i].0 == c {
                return Some(self.entries[i].1);
            }
        }
        None
    }
}

/// A key event for the virtual keyboard: a code, and 1 for a press, 0 for a
/// release or 2 for a repetition.
pub type KeyEvent = (u32, i32);

/// Which modifier a key is.
pub open spec fn modifier_bit(code: u32) -> Option<u32> {
    if code == MOD_LEFTSHIFT || code == MOD_RIGHTSHIFT {
        Some(XKB_SHIFT_BIT)
    } else if code == MOD_LEFTCTRL || code == MOD_RIGHTCTRL {
        Some(XKB_CONTROL_BIT)
    } else if code == MOD_LEFTALT {
        Some(XKB_MOD1_BIT)
    } else if code == MOD_LEFTMETA || code == MOD_RIGHTMETA {
        Some(XKB_MOD4_BIT)
    } else if code == MOD_RIGHTALT {
        Some(XKB_MOD5_BIT)
    } else if code == MOD_HENKAN {
        Some(XKB_MOD3_BIT)
    } else {
        None
    }
}

pub fn mod_bit(code: u32) -> (r: Option<u32>)
    ensures
        r == modifier_bit(code),
{
    if code == MOD_LEFTSHIFT || code == MOD_RIGHTSHIFT {
        Some(XKB_SHIFT_BIT)
    } else if code == MOD_LEFTCTRL || code == MOD_RIGHTCTRL {
        Some(XKB_CONTROL_BIT)
    } else if code == MOD_LEFTALT {
        Some(XKB_MOD1_BIT)
    } else if code == MOD_LEFTMETA || code == MOD_RIGHTMETA {
        Some(XKB_MOD4_BIT)
    } else if code == MOD_RIGHTALT {
        Some(XKB_MOD5_BIT)
    } else if code == MOD_HENKAN {
        Some(XKB_MOD3_BIT)
    } else {
        None
    }
}

/// What the composition is asked or told.
pub enum HandlerCall {
    Char { code: u32, ch: char, answer: edit::Decision },
    Backspace { answer: edit::Decision },
    ClearSession,
    ClearLastInputChar,
    FullReset,
    CheckIdle,
}

/// The composition is asked about a character.
pub open spec fn char_call(code: u32, ch: char, answer: edit::Decision) -> HandlerCall {
    HandlerCall::Char { code, ch, answer }
}

/// The composition behind grabbed keyboards. `heard` is the sequence of calls so
/// far.
pub trait EvdevHandler {
    open spec fn heard(&self) -> Seq<HandlerCall> {
        Seq::empty()
    }

    fn handle_char(&mut self, code: u32, ch: char) -> (d: KeyDecision)
        ensures
            final(self).heard() == old(self).heard().push(char_call(code, ch, d@)),
    ;

    fn handle_backspace(&mut self) -> (d: KeyDecision)
        ensures
            final(self).heard() == old(self).heard().push(HandlerCall::Backspace { answer: d@ }),
    ;

    /// Drop the session.
    fn clear_session(&mut self)
        ensures
            final(self).heard() == old(self).heard().push(HandlerCall::ClearSession),
    ;

    /// Forget the last key.
    fn clear_last_input_char(&mut self)
        ensures
            final(self).heard() == old(self).heard().push(HandlerCall::ClearLastInputChar),
    ;

    /// Drop the word in progress.
    fn full_reset_window(&mut self)
        ensures
            final(self).heard() == old(self).heard().push(HandlerCall::FullReset),
    ;

    /// Drop the engine's word after a pause.
    fn check_idle_reset_window(&mut self)
        ensures
            final(self).heard() == old(self).heard().push(HandlerCall::CheckIdle),
    ;
}

/// State of the grabbed keyboards.
pub struct EvdevAdapter {
    pub table: EmitTable,
    /// Modifiers that are held.
    pub mod_mask: u32,
    /// Modifiers that the client sees as held. They differ from `mod_mask` only
    /// while an edit is typed.
    pub emitted_mods: u32,
    /// Keys that are down. A key that is down has to be released before it is
    /// pressed for an edit: clients take a second press for a duplicate.
    pub held_physical: HashSet<u32>,
    /// Keys that are down and whose press went to the client. Only they are
    /// released at the client, or repeat there.
    pub forwarded_press: HashSet<u32>,
    /// When Escape was tapped of late.
    pub escape_taps: Vec<u64>,
    /// Escape was tapped three times: the keyboards are to be let go.
    pub should_exit: bool,
}

/// [`EvdevAdapter`] as values.
pub struct Grab {
    pub table: Seq<(char, EmitSpec)>,
    pub mod_mask: u32,
    pub emitted_mods: u32,
    pub held: Set<u32>,
    pub forwarded: Set<u32>,
    pub taps: Seq<u64>,
    pub should_exit: bool,
}

impl View for EvdevAdapter {
    type V = Grab;

    open spec fn view(&self) -> Grab {
        Grab {
            table: self.table.entries@,
            mod_mask: self.mod_mask,
            emitted_mods: self.emitted_mods,
            held: self.held_physical@,
            forwarded: self.forwarded_press@,
            taps: self.escape_taps@,
            should_exit: self.should_exit,
        }
    }
}

/// An event of a grabbed keyboard.
pub struct KeyInput {
    /// Whether the event is about a key at all.
    pub is_key: bool,
    pub code: u32,
    pub value: i32,
    /// The character that the key types with the modifiers that are held.
    pub ch: Option<char>,
    /// When the event came, in nanoseconds since some fixed time.
    pub now: u64,
}

/// The keys that take one modifier from held or not to held or not.
pub open spec fn mod_key(cur: u32, target: u32, bit: u32, code: u32) -> Seq<KeyEvent> {
    if target & bit != 0 && cur & bit == 0 {
        seq![(code, 1)]
    } else if target & bit == 0 && cur & bit != 0 {
        seq![(code, 0)]
    } else {
        Seq::empty()
    }
}

/// The keys that take the level from `cur` to `target`.
pub open spec fn level_keys(cur: u32, target: u32) -> Seq<KeyEvent> {
    mod_key(cur, target, XKB_SHIFT_BIT, MOD_LEFTSHIFT) + mod_key(
        cur,
        target,
        XKB_MOD5_BIT,
        MOD_RIGHTALT,
    ) + mod_key(cur, target, XKB_MOD3_BIT, MOD_HENKAN)
}

/// The modifiers once the level is that of `target`.
pub open spec fn leveled(cur: u32, target: u32) -> u32 {
    (cur & !LEVEL_BITS) | (target & LEVEL_BITS)
}

/// The keys that type a text, when the client sees `mods`, and what it sees then.
/// Characters that are not on the keymap are left out.
pub open spec fn typed(g: Grab, s: Seq<char>) -> (Seq<KeyEvent>, u32)
    decreases s.len(),
{
    if s.len() == 0 {
        (Seq::empty(), g.emitted_mods)
    } else {
        let (keys, mods) = typed(g, s.drop_last());
        match emit_of(g.table, s.last()) {
            None => (keys, mods),
            Some(e) => (
                keys + level_keys(mods, e.mods) + (if g.held.contains(e.keycode) {
                    seq![(e.keycode, 0i32)]
                } else {
                    Seq::empty()
                }) + seq![(e.keycode, 1i32), (e.keycode, 0i32)],
                leveled(mods, e.mods),
            ),
        }
    }
}

/// The keys that type a text and then bring the modifiers back.
pub open spec fn text_keys(g: Grab, s: Seq<char>) -> Seq<KeyEvent> {
    typed(g, s).0 + level_keys(typed(g, s).1, g.emitted_mods)
}

/// `n` presses and releases of Backspace.
pub open spec fn backspace_keys(n: nat) -> Seq<KeyEvent>
    decreases n,
{
    if n == 0 {
        Seq::empty()
    } else {
        backspace_keys((n - 1) as nat) + seq![(KEY_BACKSPACE, 1i32), (KEY_BACKSPACE, 0i32)]
    }
}

/// The keys that are down after an event.
pub open spec fn held_after(held: Set<u32>, code: u32, value: i32) -> Set<u32> {
    if value == 1 {
        held.insert(code)
    } else if value == 0 {
        held.remove(code)
    } else {
        held
    }
}

/// Modifiers after one of them is pressed, released or repeated.
pub open spec fn mask_after(mask: u32, bit: u32, value: i32) -> u32 {
    if value == 1 {
        mask | bit
    } else if value == 0 {
        mask & !bit
    } else {
        mask
    }
}

/// The taps that still count at `now`.
pub open spec fn recent_taps(taps: Seq<u64>, now: u64) -> Seq<u64> {
    taps.filter(|t: u64| now - t < TAP_WINDOW)
}

/// Control, Alt, Super or a level other than Shift is held.
pub open spec fn shortcut_held(mask: u32) -> bool {
    mask & !XKB_SHIFT_BIT != 0
}

/// What an event leads to: the state, the keys for the client and the calls to the
/// composition.
pub struct EventOutcome {
    pub grab: Grab,
    pub keys: Seq<KeyEvent>,
    pub calls: Seq<HandlerCall>,
}

/// The key goes to the client, and so will its release.
pub open spec fn press_forwarded(g: Grab, code: u32) -> Grab {
    Grab { forwarded: g.forwarded.insert(code), ..g }
}

/// The state once a tap of Escape is counted.
pub open spec fn tap_counted(g: Grab, now: u64) -> Grab {
    Grab { taps: recent_taps(g.taps, now).push(now), ..g }
}

/// The state and the keys once the composition answered a key with `d`.
#[verifier::opaque]
pub open spec fn answered(g: Grab, code: u32, d: edit::Decision) -> (Grab, Seq<KeyEvent>) {
    match d {
        edit::Decision::Consumed => (g, Seq::empty()),
        edit::Decision::ForwardRaw => (press_forwarded(g, code), seq![(code, 1i32)]),
        edit::Decision::Apply { method, backspaces, commit } => (
            g,
            if code == KEY_BACKSPACE || commit.len() == 0 {
                backspace_keys(backspaces as nat)
            } else {
                backspace_keys(backspaces as nat) + text_keys(g, commit)
            },
        ),
    }
}

/// What a modifier key leads to: it always goes to the client.
#[verifier::opaque]
pub open spec fn modifier_outcome(g: Grab, code: u32, bit: u32, value: i32) -> EventOutcome {
    EventOutcome {
        grab: Grab {
            mod_mask: mask_after(g.mod_mask, bit, value),
            emitted_mods: if bit & LEVEL_BITS != 0 {
                mask_after(g.emitted_mods, bit & LEVEL_BITS, value)
            } else {
                g.emitted_mods
            },
            ..g
        },
        keys: seq![(code, value)],
        calls: Seq::empty(),
    }
}

/// What a release or a repetition leads to: it follows its press.
#[verifier::opaque]
pub open spec fn continued(g: Grab, code: u32, value: i32) -> EventOutcome {
    EventOutcome {
        grab: if g.forwarded.contains(code) && value == 0 {
            Grab { forwarded: g.forwarded.remove(code), ..g }
        } else {
            g
        },
        keys: if g.forwarded.contains(code) {
            seq![(code, value)]
        } else {
            Seq::empty()
        },
        calls: Seq::empty(),
    }
}

/// The question that the composition is asked about a key, with its answer.
pub open spec fn key_call(code: u32, ch: char, d: edit::Decision) -> HandlerCall {
    if code == KEY_BACKSPACE {
        HandlerCall::Backspace { answer: d }
    } else {
        char_call(code, ch, d)
    }
}

/// What a press leads to, when the composition answers with `d` where it is asked.
#[verifier::opaque]
pub open spec fn pressed(g: Grab, code: u32, ch: Option<char>, d: edit::Decision) -> EventOutcome {
    if shortcut_held(g.mod_mask) || ch is None {
        EventOutcome {
            grab: press_forwarded(g, code),
            keys: seq![(code, 1i32)],
            calls: seq![HandlerCall::FullReset, HandlerCall::ClearLastInputChar],
        }
    } else {
        let (grab, keys) = answered(g, code, d);
        EventOutcome {
            grab,
            keys,
            calls: seq![HandlerCall::CheckIdle, key_call(code, ch->0, d)],
        }
    }
}

/// What three taps of Escape lead to: the session is dropped and the keyboards are
/// let go.
#[verifier::opaque]
pub open spec fn escaped(g: Grab) -> EventOutcome {
    EventOutcome {
        grab: press_forwarded(
            Grab { taps: Seq::empty(), should_exit: true, ..g },
            KEY_ESC,
        ),
        keys: seq![(KEY_ESC, 1i32)],
        calls: seq![HandlerCall::ClearSession],
    }
}

/// What an event leads to, when the composition answers with `d` where it is asked.
#[verifier::opaque]
pub open spec fn event_outcome(g: Grab, ev: KeyInput, d: edit::Decision) -> EventOutcome {
    if !ev.is_key {
        EventOutcome { grab: g, keys: Seq::empty(), calls: Seq::empty() }
    } else {
        let h = Grab { held: held_after(g.held, ev.code, ev.value), ..g };
        match modifier_bit(ev.code) {
            Some(bit) => modifier_outcome(h, ev.code, bit, ev.value),
            None => {
                if ev.value != 1 {
                    continued(h, ev.code, ev.value)
                } else if ev.code == KEY_ESC {
                    let t = tap_counted(h, ev.now);
                    if t.taps.len() >= 3 {
                        escaped(t)
                    } else {
                        pressed(t, ev.code, ev.ch, d)
                    }
                } else {
                    pressed(h, ev.code, ev.ch, d)
                }
            },
        }
    }
}

impl EvdevAdapter {
    /// No key is down.
    pub fn new(table: EmitTable) -> (a: Self)
        ensures
            a@ == (Grab {
                table: table.entries@,
                mod_mask: 0,
                emitted_mods: 0,
                held: Set::empty(),
                forwarded: Set::empty(),
                taps: Seq::empty(),
                should_exit: false,
            }),
    {
        EvdevAdapter {
            table,
            mod_mask: 0,
            emitted_mods: 0,
            held_physical: HashSet::new(),
            forwarded_press: HashSet::new(),
            escape_taps: Vec::new(),
            should_exit: false,
        }
    }

    /// Whether a modifier other than Shift is held.
    pub fn shortcut_mods_held(&self) -> (b: bool)
        ensures
            b == shortcut_held(self@.mod_mask),
    {
        (self.mod_mask & !XKB_SHIFT_BIT) != 0
    }

    fn forward_press_raw(&mut self, code: u32, out: &mut Vec<KeyEvent>)
        ensures
            final(self)@ == press_forwarded(old(self)@, code),
            final(out)@ == old(out)@ + seq![(code, 1i32)],
    {
        self.forwarded_press.insert(code);
        out.push((code, 1));
        assert(out@ =~= old(out)@ + seq![(code, 1i32)]);
    }

    fn set_modifier(&self, target: u32, bit: u32, code: u32, out: &mut Vec<KeyEvent>)
        ensures
            final(out)@ == old(out)@ + mod_key(self@.emitted_mods, target, bit, code),
    {
        let want = target & bit != 0;
        let have = self.emitted_mods & bit != 0;
        if want && !have {
            out.push((code, 1));
        } else if !want && have {
            out.push((code, 0));
        }
        assert(out@ =~= old(out)@ + mod_key(self@.emitted_mods, target, bit, code));
    }

    /// Let the client see the level of `target`.
    fn set_uinput_mods(&mut self, target: u32, out: &mut Vec<KeyEvent>)
        ensures
            final(out)@ == old(out)@ + level_keys(old(self)@.emitted_mods, target),
            final(self)@ == (Grab {
                emitted_mods: leveled(old(self)@.emitted_mods, target),
                ..old(self)@
            }),
    {
        let ghost start = out@;
        self.set_modifier(target, XKB_SHIFT_BIT, MOD_LEFTSHIFT, out);
        self.set_modifier(target, XKB_MOD5_BIT, MOD_RIGHTALT, out);
        self.set_modifier(target, XKB_MOD3_BIT, MOD_HENKAN, out);
        assert(out@ =~= start + level_keys(self@.emitted_mods, target));
        self.emitted_mods = (self.emitted_mods & !LEVEL_BITS) | (target & LEVEL_BITS);
    }

    fn emit_char(&mut self, c: char, out: &mut Vec<KeyEvent>)
        ensures
            match emit_of(old(self)@.table, c) {
                None => final(self)@ == old(self)@ && final(out)@ == old(out)@,
                Some(e) => {
                    &&& final(self)@ == (Grab {
                        emitted_mods: leveled(old(self)@.emitted_mods, e.mods),
                        ..old(self)@
                    })
                    &&& final(out)@ == old(out)@ + level_keys(old(self)@.emitted_mods, e.mods) + (
                    if old(self)@.held.contains(e.keycode) {
                        seq![(e.keycode, 0i32)]
                    } else {
                        Seq::empty()
                    }) + seq![(e.keycode, 1i32), (e.keycode, 0i32)]
                },
            },
    {
        let spec = match self.table.char_to_emit(c) {
            None => {
                return;
            },
            Some(spec) => spec,
        };
        let ghost start = out@;
        let ghost mods = self@.emitted_mods;
        self.set_uinput_mods(spec.mods, out);
        if self.held_physical.contains(&spec.keycode) {
            out.push((spec.keycode, 0));
        }
        out.push((spec.keycode, 1));
        out.push((spec.keycode, 0));
        assert(out@ =~= start + level_keys(mods, spec.mods) + (if self@.held.contains(
            spec.keycode,
        ) {
            seq![(spec.keycode, 0i32)]
        } else {
            Seq::empty()
        }) + seq![(spec.keycode, 1i32), (spec.keycode, 0i32)]);
    }

    /// Type a text.
    fn emit_string(&mut self, s: &str, out: &mut Vec<KeyEvent>)
        ensures
            final(self)@ == old(self)@,
            final(out)@ == old(out)@ + text_keys(old(self)@, s@),
    {
        let original = self.emitted_mods;
        let ghost g = self@;
        let ghost start = out@;
        let ghost mut i: int = 0;
        proof {
            assert(s@.take(0) =~= Seq::<char>::empty());
            assert(start + Seq::<KeyEvent>::empty() =~= start);
            lemma_level_kept(original, original, original);
        }
        for c in it: s.chars()
            invariant
                it.seq() == s@,
                i == it.index(),
                self@ == (Grab { emitted_mods: typed(g, s@.take(i)).1, ..g }),
                out@ == start + typed(g, s@.take(i)).0,
                original == g.emitted_mods,
                self@.emitted_mods & !LEVEL_BITS == original & !LEVEL_BITS,
        {
            let ghost mods = self@.emitted_mods;
            self.emit_char(c, out);
            proof {
                assert(s@.take(i + 1).drop_last() =~= s@.take(i));
                assert(s@.take(i + 1).last() == c);
                if let Some(e) = emit_of(g.table, c) {
                    lemma_level_kept(mods, e.mods, original);
                }
                assert(out@ =~= start + typed(g, s@.take(i + 1)).0);
                i = i + 1;
            }
        }
        let ghost mods = self@.emitted_mods;
        self.set_uinput_mods(original, out);
        proof {
            assert(s@.take(i) =~= s@);
            assert(out@ =~= start + text_keys(g, s@));
            lemma_level_kept(mods, original, original);
        }
    }

    fn emit_backspaces(&self, n: usize, out: &mut Vec<KeyEvent>)
        ensures
            final(out)@ == old(out)@ + backspace_keys(n as nat),
    {
        let ghost start = out@;
        assert(start + Seq::<KeyEvent>::empty() =~= start);
        for i in 0..n
            invariant
                out@ == start + backspace_keys(i as nat),
        {
            out.push((KEY_BACKSPACE, 1));
            out.push((KEY_BACKSPACE, 0));
            assert(out@ =~= start + backspace_keys((i + 1) as nat));
        }
    }

    /// Carry out the composition's answer to a key.
    pub fn take_answer(&mut self, code: u32, d: KeyDecision) -> (out: Vec<KeyEvent>)
        ensures
            (final(self)@, out@) == answered(old(self)@, code, d@),
    {
        reveal(answered);
        let mut out: Vec<KeyEvent> = Vec::new();
        match d {
            KeyDecision::Consumed => {},
            KeyDecision::ForwardRaw => {
                self.forward_press_raw(code, &mut out);
                assert(out@ =~= seq![(code, 1i32)]);
            },
            KeyDecision::Apply { method: _, backspaces, commit } => {
                self.emit_backspaces(backspaces, &mut out);
                assert(out@ =~= backspace_keys(backspaces as nat));
                if code != KEY_BACKSPACE && !commit.as_str().is_empty() {
                    self.emit_string(commit.as_str(), &mut out);
                }
            },
        }
        out
    }

    fn note_modifier(&mut self, code: u32, bit: u32, value: i32) -> (out: Vec<KeyEvent>)
        ensures
            final(self)@ == modifier_outcome(old(self)@, code, bit, value).grab,
            out@ == modifier_outcome(old(self)@, code, bit, value).keys,
            modifier_outcome(old(self)@, code, bit, value).calls.len() == 0,
    {
        reveal(modifier_outcome);
        let level: u32 = bit & LEVEL_BITS;
        if value == 1 {
            self.mod_mask = self.mod_mask | bit;
            if level != 0 {
                self.emitted_mods = self.emitted_mods | level;
            }
        } else if value == 0 {
            self.mod_mask = self.mod_mask & !bit;
            if level != 0 {
                self.emitted_mods = self.emitted_mods & !level;
            }
        }
        let mut out: Vec<KeyEvent> = Vec::new();
        out.push((code, value));
        assert(out@ =~= seq![(code, value)]);
        out
    }

    fn follow(&mut self, code: u32, value: i32) -> (out: Vec<KeyEvent>)
        ensures
            final(self)@ == continued(old(self)@, code, value).grab,
            out@ == continued(old(self)@, code, value).keys,
            continued(old(self)@, code, value).calls.len() == 0,
    {
        reveal(continued);
        let mut out: Vec<KeyEvent> = Vec::new();
        if self.forwarded_press.contains(&code) {
            out.push((code, value));
            assert(out@ =~= seq![(code, value)]);
            if value == 0 {
                let _ = self.forwarded_press.remove(&code);
            }
        }
        out
    }

    /// Count a tap of Escape.
    fn count_tap(&mut self, now: u64)
        ensures
            final(self)@ == tap_counted(old(self)@, now),
    {
        let ghost all = self.escape_taps@;
        let ghost recent = |t: u64| now - t < TAP_WINDOW;
        let mut kept: Vec<u64> = Vec::new();
        assert(all.take(0) =~= Seq::<u64>::empty());
        assert(Seq::<u64>::empty().filter(recent) =~= Seq::<u64>::empty()) by {
            reveal(Seq::filter);
        }
        for i in 0..self.escape_taps.len()
            invariant
                all == self.escape_taps@,
                recent == (|t: u64| now - t < TAP_WINDOW),
                kept@ == all.take(i as int).filter(recent),
        {
            let t = self.escape_taps[i];
            proof {
                assert(all.take(i + 1).drop_last() =~= all.take(i as int));
                reveal(Seq::filter);
            }
            if now < t || now - t < TAP_WINDOW {
                kept.push(t);
            }
        }
        assert(all.take(all.len() as int) =~= all);
        kept.push(now);
        self.escape_taps = kept;
    }

    fn press<H: EvdevHandler>(&mut self, handler: &mut H, code: u32, ch: Option<char>) -> (out: Vec<
        KeyEvent,
    >)
        ensures
            exists|d: edit::Decision|
                {
                    let o = #[trigger] pressed(old(self)@, code, ch, d);
                    &&& final(self)@ == o.grab
                    &&& out@ == o.keys
                    &&& final(handler).heard() == old(handler).heard() + o.calls
                },
    {
        reveal(pressed);
        let ghost start = self@;
        let ghost heard = handler.heard();
        let c = match ch {
            Some(c) if !self.shortcut_mods_held() => c,
            _ => {
                handler.full_reset_window();
                handler.clear_last_input_char();
                let mut out: Vec<KeyEvent> = Vec::new();
                self.forward_press_raw(code, &mut out);
                proof {
                    let o = pressed(start, code, ch, edit::Decision::Consumed);
                    assert(out@ =~= o.keys);
                    assert(handler.heard() =~= heard + o.calls);
                }
                return out;
            },
        };
        handler.check_idle_reset_window();
        let d = if code == KEY_BACKSPACE {
            handler.handle_backspace()
        } else {
            handler.handle_char(code, c)
        };
        let ghost answer = d@;
        assert(handler.heard() == heard.push(HandlerCall::CheckIdle).push(
            key_call(code, c, answer),
        ));
        let out = self.take_answer(code, d);
        proof {
            let o = pressed(start, code, ch, answer);
            assert(handler.heard() =~= heard + o.calls);
        }
        out
    }

    fn escape<H: EvdevHandler>(&mut self, handler: &mut H) -> (out: Vec<KeyEvent>)
        ensures
            final(self)@ == escaped(old(self)@).grab,
            out@ == escaped(old(self)@).keys,
            final(handler).heard() == old(handler).heard() + escaped(old(self)@).calls,
    {
        reveal(escaped);
        self.escape_taps = Vec::new();
        self.should_exit = true;
        assert(self.escape_taps@ =~= Seq::<u64>::empty());
        handler.clear_session();
        let mut out: Vec<KeyEvent> = Vec::new();
        self.forward_press_raw(KEY_ESC, &mut out);
        assert(out@ =~= seq![(KEY_ESC, 1i32)]);
        assert(handler.heard() =~= old(handler).heard() + escaped(old(self)@).calls);
        out
    }

    /// Take in an event; the keys to press on the virtual keyboard.
    pub fn process_event<H: EvdevHandler>(&mut self, handler: &mut H, ev: &KeyInput) -> (out: Vec<
        KeyEvent,
    >)
        ensures
            exists|d: edit::Decision|
                {
                    let o = #[trigger] event_outcome(old(self)@, *ev, d);
                    &&& final(self)@ == o.grab
                    &&& out@ == o.keys
                    &&& final(handler).heard() == old(handler).heard() + o.calls
                },
    {
        reveal(event_outcome);
        let ghost start = self@;
        let ghost heard = handler.heard();
        let ghost none = edit::Decision::Consumed;
        if !ev.is_key {
            assert(heard + event_outcome(start, *ev, none).calls =~= heard);
            return Vec::new();
        }
        if ev.value == 1 {
            self.held_physical.insert(ev.code);
        } else if ev.value == 0 {
            let _ = self.held_physical.remove(&ev.code);
        }
        let ghost h = self@;
        assert(h == (Grab { held: held_after(start.held, ev.code, ev.value), ..start }));
        if let Some(bit) = mod_bit(ev.code) {
            let out = self.note_modifier(ev.code, bit, ev.value);
            assert(heard + event_outcome(start, *ev, none).calls =~= heard);
            return out;
        }
        if ev.value != 1 {
            let out = self.follow(ev.code, ev.value);
            assert(heard + event_outcome(start, *ev, none).calls =~= heard);
            return out;
        }
        if ev.code == KEY_ESC {
            self.count_tap(ev.now);
            if self.escape_taps.len() >= 3 {
                let out = self.escape(handler);
                assert(handler.heard() == heard + event_outcome(start, *ev, none).calls);
                return out;
            }
        }
        let ghost ready = self@;
        let out = self.press(handler, ev.code, ev.ch);
        proof {
            let d = choose|d: edit::Decision|
                {
                    let o = #[trigger] pressed(ready, ev.code, ev.ch, d);
                    &&& self@ == o.grab
                    &&& out@ == o.keys
                    &&& handler.heard() == heard + o.calls
                };
            assert(event_outcome(start, *ev, d) == pressed(ready, ev.code, ev.ch, d));
        }
        out
    }
}

/// Choosing a level leaves the other modifiers alone; going back to a level brings
/// back what was held.
proof fn lemma_level_kept(mods: u32, target: u32, original: u32)
    ensures
        leveled(mods, target) & !LEVEL_BITS == mods & !LEVEL_BITS,
        mods & !LEVEL_BITS == original & !LEVEL_BITS ==> leveled(mods, original) == original,
{
    assert(((mods & !0xa1u32) | (target & 0xa1u32)) & !0xa1u32 == mods & !0xa1u32) by (bit_vector);
    assert(mods & !0xa1u32 == original & !0xa1u32 ==> ((mods & !0xa1u32) | (original & 0xa1u32))
        == original) by (bit_vector);
}

} // verus!
