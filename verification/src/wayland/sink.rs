//! Typing on the virtual keyboard of the compositor.
use vstd::prelude::*;

use crate::edit::KeyState;
use crate::evdev;
use crate::evdev::{EmitSpec, EmitTable};
use crate::wayland::app::{RawMods, SelfEmit};

verus! {

/// One request to the virtual keyboard.
#[derive(Debug, Clone, Copy, PartialEq, Eq, Structural)]
pub enum VkRequest {
    Key { time: u32, key_code: u32, value: u32 },
    Modifiers(RawMods),
}

/// The number that stands for a key state on the wire.
pub open spec fn key_value_of(s: KeyState) -> u32 {
    match s {
        KeyState::Pressed => 1,
        KeyState::Released => 0,
    }
}

/// The number that stands for a key state on the wire.
pub fn key_value(s: KeyState) -> (v: u32)
    ensures
        v == key_value_of(s),
{
    match s {
        KeyState::Pressed => 1,
        KeyState::Released => 0,
    }
}

/// The modifiers that the user holds, with those of `mods` held too.
pub open spec fn with_mods(held: RawMods, mods: u32) -> RawMods {
    RawMods { depressed: held.depressed | mods, ..held }
}

/// One key, pressed and released.
pub open spec fn tap(time: u32, key_code: u32) -> Seq<VkRequest> {
    seq![
        VkRequest::Key { time, key_code, value: 1 },
        VkRequest::Key { time, key_code, value: 0 },
    ]
}

/// How a character is typed: where it takes modifiers, they are added to what
/// the user holds, and taken away again.
pub open spec fn char_requests(held: RawMods, spec_: EmitSpec, time: u32) -> Seq<VkRequest> {
    if spec_.mods == 0 {
        tap(time, spec_.keycode)
    } else {
        seq![VkRequest::Modifiers(with_mods(held, spec_.mods))] + tap(time, spec_.keycode)
            + seq![VkRequest::Modifiers(held)]
    }
}

/// The requests that type `c` while the user holds `held`; `None` where the
/// keymap has no key for it.
pub fn vk_commit_char(table: &EmitTable, held: RawMods, time: u32, c: char) -> (r: Option<
    Vec<VkRequest>,
>)
    ensures
        r is Some <==> evdev::emit_of(table.entries@, c) is Some,
        r matches Some(v) ==> v@ == char_requests(
            held,
            evdev::emit_of(table.entries@, c)->0,
            time,
        ),
{
    let spec_ = match table.char_to_emit(c) {
        Some(s) => s,
        None => {
            return None;
        },
    };
    let mut v: Vec<VkRequest> = Vec::new();
    if spec_.mods != 0 {
        v.push(
            VkRequest::Modifiers(
                RawMods {
                    depressed: held.depressed | spec_.mods,
                    latched: held.latched,
                    locked: held.locked,
                    group: held.group,
                },
            ),
        );
    }
    v.push(VkRequest::Key { time, key_code: spec_.keycode, value: 1 });
    v.push(VkRequest::Key { time, key_code: spec_.keycode, value: 0 });
    if spec_.mods != 0 {
        v.push(VkRequest::Modifiers(held));
    }
    assert(v@ =~= char_requests(held, spec_, time));
    Some(v)
}

/// The keymap has a key for every character of `text`.
pub open spec fn has_keys(entries: Seq<(char, EmitSpec)>, text: Seq<char>) -> bool {
    forall|i: int| 0 <= i < text.len() ==> evdev::emit_of(entries, #[trigger] text[i]) is Some
}

/// How a text is typed that the keymap has all the keys for: character by character.
pub open spec fn text_requests(
    entries: Seq<(char, EmitSpec)>,
    held: RawMods,
    text: Seq<char>,
    time: u32,
) -> Seq<VkRequest>
    decreases text.len(),
{
    if text.len() == 0 {
        Seq::empty()
    } else {
        text_requests(entries, held, text.drop_last(), time) + char_requests(
            held,
            evdev::emit_of(entries, text.last())->0,
            time,
        )
    }
}

/// The requests that type all of `text` while the user holds `held`; `None` where the
/// keymap lacks a key for some of it.
pub fn vk_commit_text(table: &EmitTable, held: RawMods, time: u32, text: &str) -> (r: Option<
    Vec<VkRequest>,
>)
    ensures
        r is Some <==> has_keys(table.entries@, text@),
        r matches Some(v) ==> v@ == text_requests(table.entries@, held, text@, time),
{
    let n: usize = text.unicode_len();
    let mut all: Vec<VkRequest> = Vec::new();
    for i in 0..n
        invariant
            n == text@.len(),
            forall|j: int|
                0 <= j < i ==> evdev::emit_of(table.entries@, #[trigger] text@[j]) is Some,
            all@ == text_requests(table.entries@, held, text@.take(i as int), time),
    {
        let c = text.get_char(i);
        match vk_commit_char(table, held, time, c) {
            None => {
                assert(evdev::emit_of(table.entries@, text@[i as int]) is None);
                return None;
            },
            Some(mut v) => {
                assert(text@.take(i + 1).drop_last() =~= text@.take(i as int));
                assert(text@.take(i + 1).last() == c);
                all.append(&mut v);
            },
        }
    }
    assert(text@.take(n as int) =~= text@);
    Some(all)
}

/// The requests that stand in for a committed string. A client that applies committed
/// strings gets those, and `None` says so; any other gets the text as keys, where the
/// keymap has them all.
pub fn keys_for_string(
    commit_string_functional: bool,
    table: &EmitTable,
    held: RawMods,
    time: u32,
    text: &str,
) -> (r: Option<Vec<VkRequest>>)
    ensures
        r is Some <==> !commit_string_functional && has_keys(table.entries@, text@),
        r matches Some(v) ==> v@ == text_requests(table.entries@, held, text@, time),
{
    if commit_string_functional {
        return None;
    }
    vk_commit_text(table, held, time, text)
}

/// A key goes to our own input device: it is noted, so that it is known when
/// it comes back. Without a device nothing is sent or noted.
pub fn uinput_key(
    has_device: bool,
    emits: &mut Vec<SelfEmit>,
    key_code: u16,
    value: i32,
    now: u64,
) -> (sent: bool)
    ensures
        sent == has_device,
        final(emits)@ == if has_device {
            old(emits)@.push(SelfEmit { key: key_code as u32, value, at: now })
        } else {
            old(emits)@
        },
{
    if has_device {
        emits.push(SelfEmit { key: key_code as u32, value, at: now });
    }
    has_device
}

/// The modifiers after the requests `v`, where `held` were held before.
pub open spec fn mods_after(held: RawMods, v: Seq<VkRequest>) -> RawMods
    decreases v.len(),
{
    if v.len() == 0 {
        held
    } else {
        match v.last() {
            VkRequest::Modifiers(m) => m,
            VkRequest::Key { .. } => mods_after(held, v.drop_last()),
        }
    }
}

/// Typing a character leaves the modifiers as the user holds them.
pub proof fn law_modifiers_are_restored(held: RawMods, spec_: EmitSpec, time: u32)
    ensures
        mods_after(held, char_requests(held, spec_, time)) == held,
{
    let v = char_requests(held, spec_, time);
    if spec_.mods == 0 {
        let w = v.drop_last();
        assert(w.drop_last() =~= Seq::<VkRequest>::empty());
        assert(mods_after(held, w.drop_last()) == held);
        assert(mods_after(held, w) == held);
    } else {
        assert(v.last() == VkRequest::Modifiers(held));
    }
}

/// So does typing a text.
pub proof fn law_text_restores_modifiers(
    entries: Seq<(char, EmitSpec)>,
    held: RawMods,
    text: Seq<char>,
    time: u32,
)
    ensures
        mods_after(held, text_requests(entries, held, text, time)) == held,
    decreases text.len(),
{
    if text.len() > 0 {
        let spec_ = evdev::emit_of(entries, text.last())->0;
        let front = text_requests(entries, held, text.drop_last(), time);
        let back = char_requests(held, spec_, time);
        law_text_restores_modifiers(entries, held, text.drop_last(), time);
        if spec_.mods == 0 {
            let v = front + back;
            assert(v.drop_last().drop_last() =~= front);
            assert(mods_after(held, v.drop_last()) == held);
        } else {
            assert((front + back).last() == VkRequest::Modifiers(held));
        }
    }
}

} // verus!
