//! Held modifier keys.
use vstd::prelude::*;

verus! {

/// Bit of each modifier key.
pub const SHIFT: u32 = 0x01;

pub const CTRL: u32 = 0x04;

pub const ALT: u32 = 0x08;

pub const SUPER: u32 = 0x40;

/// The set of modifier keys that are held, one bit each.
#[derive(Debug, Clone, Copy, PartialEq, Eq, Structural)]
pub struct ModifierState {
    pub bits: u32,
}

impl Default for ModifierState {
    fn default() -> (m: Self)
        ensures
            m.bits == 0,
    {
        ModifierState { bits: 0 }
    }
}

impl ModifierState {
    pub fn empty() -> (m: Self)
        ensures
            m.bits == 0,
    {
        ModifierState { bits: 0 }
    }

    /// Whether every key of `mask` is held.
    pub fn contains(self, mask: u32) -> (b: bool)
        ensures
            b == (self.bits & mask == mask),
    {
        self.bits & mask == mask
    }

    /// Whether some key of `mask` is held.
    pub fn intersects(self, mask: u32) -> (b: bool)
        ensures
            b == (self.bits & mask != 0),
    {
        self.bits & mask != 0
    }

    /// The held keys and those of `mask`.
    pub fn with(self, mask: u32) -> (m: ModifierState)
        ensures
            m.bits == self.bits | mask,
    {
        ModifierState { bits: self.bits | mask }
    }
}

} // verus!
