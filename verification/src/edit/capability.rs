//! Which tier a freshly focused text input gets.
use vstd::prelude::*;

use crate::edit::BackspaceMethod;

verus! {

/// What is known of a text input after the focus-enter probe window.
pub struct CapabilityProbe {
    /// Content-type `purpose` from the compositor.
    pub purpose: u32,
    /// Whether a surrounding-text frame arrived after activation.
    pub surrounding_text_seen: bool,
    /// Forced tier for terminals.
    pub terminal_override: Option<BackspaceMethod>,
}

/// The `purpose` with which terminals identify themselves.
pub const PURPOSE_TERMINAL: u32 = 13;

/// A terminal gets the forced tier, or else Backspace keys. Anything else gets
/// surrounding text exactly when it sent a surrounding-text frame.
pub fn detect_method(probe: &CapabilityProbe) -> (m: BackspaceMethod)
    ensures
        m == if probe.purpose == PURPOSE_TERMINAL {
            match probe.terminal_override {
                Some(forced) => forced,
                None => BackspaceMethod::ForwardKey,
            }
        } else if probe.surrounding_text_seen {
            BackspaceMethod::SurroundingText
        } else {
            BackspaceMethod::ForwardKey
        },
{
    if probe.purpose == PURPOSE_TERMINAL {
        if let Some(forced) = probe.terminal_override {
            return forced;
        }
        return BackspaceMethod::ForwardKey;
    }
    if probe.surrounding_text_seen {
        BackspaceMethod::SurroundingText
    } else {
        BackspaceMethod::ForwardKey
    }
}

} // verus!
