//! Workarounds for clients that do not keep to their protocol.
pub mod firefox;
pub mod ibus;
