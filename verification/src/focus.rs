//! Which window has the focus.
use vstd::prelude::*;

verus! {

/// Where focus changes come from.
#[derive(Debug, Clone, Copy, PartialEq, Eq, Structural)]
pub enum FocusSource {
    /// `wlr-foreign-toplevel-management-v1`.
    WlrForeignToplevel,
    /// `org_kde_plasma_window_management`.
    KdePlasma,
    /// The focus is not tracked.
    Untracked,
}

/// A change of focus.
#[derive(Debug, Clone, PartialEq, Eq, Default)]
pub struct FocusEvent {
    /// The window that has the focus; `None` where there is none to type in.
    pub app_id: Option<String>,
    /// The window is an X11 window.
    pub is_xwayland: bool,
}

} // verus!
