//! Key symbols and key codes.
//!
//! IBus reports an X11 key symbol, a key code and a mask of modifiers.
use vstd::prelude::*;

use crate::edit::modifiers;
use crate::edit::modifiers::ModifierState;

verus! {

pub const XK_BACKSPACE: u32 = 0xff08;

pub const XK_TAB: u32 = 0xff09;

pub const XK_RETURN: u32 = 0xff0d;

pub const XK_ESCAPE: u32 = 0xff1b;

pub const XK_DELETE: u32 = 0xffff;

pub const IBUS_SHIFT_MASK: u32 = 0x1;

pub const IBUS_LOCK_MASK: u32 = 0x2;

pub const IBUS_CONTROL_MASK: u32 = 0x4;

/// Alt.
pub const IBUS_MOD1_MASK: u32 = 0x8;

/// Super.
pub const IBUS_MOD4_MASK: u32 = 0x40;

/// Marks a key event that the engine made itself: the client does not hand it
/// back.
pub const IBUS_FORWARD_MASK: u32 = 0x0200_0000;

pub const IBUS_RELEASE_MASK: u32 = 0x4000_0000;

/// A Unicode scalar value.
pub open spec fn scalar(n: u32) -> bool {
    n <= 0xd7ff || 0xe000 <= n <= 0x10ffff
}

/// `char::from_u32`: a number that is a Unicode scalar value gives its character,
/// any other gives nothing.
pub assume_specification[ char::from_u32 ](i: u32) -> (r: Option<char>)
    ensures
        r is Some <==> scalar(i),
        r matches Some(c) ==> c as u32 == i,
;

/// The number of the character that a key symbol types, before it is known to be a
/// scalar value. Symbols with a leading byte of 1 carry it in the rest; Latin
/// symbols are their own character.
pub open spec fn char_number(keyval: u32) -> Option<u32> {
    if keyval & 0xff00_0000 == 0x0100_0000 {
        Some(keyval & 0x00ff_ffff)
    } else if 0x20 <= keyval <= 0x2ff {
        Some(keyval)
    } else {
        None
    }
}

/// `r` is the character that a key symbol types.
pub open spec fn types(keyval: u32, r: Option<char>) -> bool {
    match char_number(keyval) {
        Some(n) => if scalar(n) {
            r matches Some(c) && c as u32 == n
        } else {
            r is None
        },
        None => r is None,
    }
}

/// The character that a key symbol types; special keys type none.
pub fn keyval_to_char(keyval: u32) -> (r: Option<char>)
    ensures
        types(keyval, r),
{
    if keyval & 0xff00_0000 == 0x0100_0000 {
        return char::from_u32(keyval & 0x00ff_ffff);
    }
    if (0x20 <= keyval && keyval <= 0xff) || (0x100 <= keyval && keyval <= 0x2ff) {
        return char::from_u32(keyval);
    }
    None
}

/// The evdev code for an X11 key code.
pub fn x11_to_evdev(x11_kc: u32) -> (r: u32)
    ensures
        r == if x11_kc >= 8 {
            x11_kc - 8
        } else {
            0
        },
{
    x11_kc.saturating_sub(8)
}

/// The evdev code of a key symbol that daklak treats specially.
pub open spec fn special_code(keyval: u32) -> Option<u32> {
    if keyval == XK_BACKSPACE {
        Some(14)
    } else if keyval == 0xff51 {
        Some(105)
    } else if keyval == 0xff53 {
        Some(106)
    } else if keyval == 0xff52 {
        Some(103)
    } else if keyval == 0xff54 {
        Some(108)
    } else if keyval == 0xff50 {
        Some(102)
    } else if keyval == 0xff57 {
        Some(107)
    } else if keyval == 0xff55 {
        Some(104)
    } else if keyval == 0xff56 {
        Some(109)
    } else {
        None
    }
}

/// The evdev code of a key.
pub open spec fn evdev_code(keyval: u32, keycode: u32) -> u32 {
    match special_code(keyval) {
        Some(c) => c,
        None => keycode,
    }
}

/// The evdev code of a key. Backspace and the keys that move the cursor are known
/// by their symbol, since key codes differ by 8 between display servers; the code
/// of any other key is passed on.
pub fn keyval_to_evdev(keyval: u32, keycode: u32) -> (r: u32)
    ensures
        r == evdev_code(keyval, keycode),
{
    if keyval == XK_BACKSPACE {
        14
    } else if keyval == 0xff51 {
        105
    } else if keyval == 0xff53 {
        106
    } else if keyval == 0xff52 {
        103
    } else if keyval == 0xff54 {
        108
    } else if keyval == 0xff50 {
        102
    } else if keyval == 0xff57 {
        107
    } else if keyval == 0xff55 {
        104
    } else if keyval == 0xff56 {
        109
    } else {
        keycode
    }
}

/// The key symbol of an evdev code: known for Backspace only, 0 for any other.
pub fn evdev_to_keyval(evdev_kc: u32) -> (r: u32)
    ensures
        r == if evdev_kc == 14 {
            XK_BACKSPACE
        } else {
            0
        },
{
    if evdev_kc == 14 {
        XK_BACKSPACE
    } else {
        0
    }
}

/// One modifier, if its bit is in the mask.
pub open spec fn one_modifier(state: u32, mask: u32, bit: u32) -> u32 {
    if state & mask != 0 {
        bit
    } else {
        0
    }
}

/// The modifiers in a mask.
pub open spec fn modifiers_of(state: u32) -> ModifierState {
    ModifierState {
        bits: one_modifier(state, IBUS_SHIFT_MASK, modifiers::SHIFT) | one_modifier(
            state,
            IBUS_CONTROL_MASK,
            modifiers::CTRL,
        ) | one_modifier(state, IBUS_MOD1_MASK, modifiers::ALT) | one_modifier(
            state,
            IBUS_MOD4_MASK,
            modifiers::SUPER,
        ),
    }
}

/// The modifiers in a mask. Locks do not count.
pub fn ibus_state_to_modifiers(state: u32) -> (m: ModifierState)
    ensures
        m == modifiers_of(state),
{
    let shift: u32 = if state & IBUS_SHIFT_MASK != 0 {
        modifiers::SHIFT
    } else {
        0
    };
    let ctrl: u32 = if state & IBUS_CONTROL_MASK != 0 {
        modifiers::CTRL
    } else {
        0
    };
    let alt: u32 = if state & IBUS_MOD1_MASK != 0 {
        modifiers::ALT
    } else {
        0
    };
    let meta: u32 = if state & IBUS_MOD4_MASK != 0 {
        modifiers::SUPER
    } else {
        0
    };
    ModifierState { bits: shift | ctrl | alt | meta }
}

/// The masks of IBus and of daklak use the same bits: only those of the four
/// modifiers are kept.
pub proof fn law_modifiers_keep_their_bits(state: u32)
    ensures
        modifiers_of(state).bits == state & 0x4d,
{
    assert((if state & 0x1 != 0 {
        0x1u32
    } else {
        0u32
    } | if state & 0x4 != 0 {
        0x4u32
    } else {
        0u32
    } | if state & 0x8 != 0 {
        0x8u32
    } else {
        0u32
    } | if state & 0x40 != 0 {
        0x40u32
    } else {
        0u32
    }) == state & 0x4d) by (bit_vector);
}

/// No letter is taken for Backspace, whatever code the display server gives it:
/// only a key whose symbol or whose code says so is.
pub proof fn law_only_backspace_deletes(keyval: u32, keycode: u32)
    requires
        keycode != 14,
        keyval != XK_BACKSPACE,
    ensures
        evdev_code(keyval, keycode) != 14,
{
}

} // verus!
