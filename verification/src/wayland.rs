//! The Wayland side: frames, windows, the keymap, the loop around the compositor.
pub mod app;
pub mod frame;
pub mod keymap;
pub mod laws;
pub mod run;
pub mod sink;
pub mod window;
