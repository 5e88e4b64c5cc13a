//! Surrounding-text liveness over IBus.
//!
//! A client that honors a surrounding-text delete reports the new text back.
//! One that advertises surrounding text but ignores the delete reports nothing.
use vstd::prelude::*;

verus! {

/// Counts corrections that no surrounding-text frame echoed.
#[derive(Debug, PartialEq, Eq, Structural)]
pub struct IbusSurroundingQuirk {
    pub surrounding_echo_since_correction: bool,
    pub surrounding_saw_correction: bool,
    pub surrounding_corrections_without_echo: u32,
}

impl IbusSurroundingQuirk {
    /// Nothing seen yet.
    pub open spec fn fresh() -> IbusSurroundingQuirk {
        IbusSurroundingQuirk {
            surrounding_echo_since_correction: false,
            surrounding_saw_correction: false,
            surrounding_corrections_without_echo: 0,
        }
    }

    /// A frame has arrived since the last correction.
    pub open spec fn seen(self) -> IbusSurroundingQuirk {
        IbusSurroundingQuirk { surrounding_echo_since_correction: true, ..self }
    }

    /// The state after one more correction.
    pub open spec fn corrected(self) -> IbusSurroundingQuirk {
        if !self.surrounding_saw_correction {
            IbusSurroundingQuirk {
                surrounding_saw_correction: true,
                surrounding_echo_since_correction: false,
                ..self
            }
        } else if self.surrounding_echo_since_correction {
            IbusSurroundingQuirk {
                surrounding_corrections_without_echo: 0,
                surrounding_echo_since_correction: false,
                ..self
            }
        } else {
            IbusSurroundingQuirk {
                surrounding_corrections_without_echo: if self.surrounding_corrections_without_echo
                    < u32::MAX {
                    (self.surrounding_corrections_without_echo + 1) as u32
                } else {
                    u32::MAX
                },
                ..self
            }
        }
    }

    pub fn new() -> (q: Self)
        ensures
            q == Self::fresh(),
    {
        Self {
            surrounding_echo_since_correction: false,
            surrounding_saw_correction: false,
            surrounding_corrections_without_echo: 0,
        }
    }

    pub fn mark_surrounding_frame_seen(&mut self)
        ensures
            *final(self) == old(self).seen(),
    {
        self.surrounding_echo_since_correction = true;
    }

    /// Note a correction. `true` when the one before it went without an echo,
    /// so that the caller gives up on surrounding text.
    pub fn note_correction_and_should_downgrade(&mut self) -> (downgrade: bool)
        ensures
            *final(self) == old(self).corrected(),
            downgrade == (old(self).surrounding_saw_correction
                && !old(self).surrounding_echo_since_correction),
    {
        if !self.surrounding_saw_correction {
            self.surrounding_saw_correction = true;
            self.surrounding_echo_since_correction = false;
            return false;
        }
        if self.surrounding_echo_since_correction {
            self.surrounding_corrections_without_echo = 0;
            self.surrounding_echo_since_correction = false;
            return false;
        }
        self.surrounding_corrections_without_echo =
        self.surrounding_corrections_without_echo.saturating_add(1);
        self.surrounding_corrections_without_echo >= 1
    }

    pub fn reset(&mut self)
        ensures
            *final(self) == Self::fresh(),
    {
        *self = Self::new();
    }
}

/// A correction that is echoed before the next one never leads to a downgrade,
/// and neither does the first correction.
pub proof fn law_echoed_correction_never_downgrades(q: IbusSurroundingQuirk)
    ensures
        q.corrected().seen().surrounding_echo_since_correction,
        !IbusSurroundingQuirk::fresh().surrounding_saw_correction,
{
}

/// Two corrections with no frame between them do.
pub proof fn law_unechoed_correction_downgrades(q: IbusSurroundingQuirk)
    ensures
        q.corrected().surrounding_saw_correction,
        !q.corrected().surrounding_echo_since_correction,
{
}

} // verus!
