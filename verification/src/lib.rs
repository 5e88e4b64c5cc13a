//! Daklak: the transport-neutral core of a Vietnamese input method.
pub mod backend;
pub mod cli;
pub mod client;
pub mod clock;
pub mod composer;
pub mod config;
pub mod control;
pub mod edit;
pub mod engine;
pub mod evdev;
pub mod focus;
pub mod focused_app;
pub mod handler;
pub mod hooks;
pub mod ibus;
pub mod ipc;
pub mod json;
pub mod keystrokes;
pub mod logging;
pub mod numbers;
pub mod paths;
pub mod preflight;
pub mod quirks;
pub mod settings_file;
pub mod strings;
pub mod supervisor;
pub mod text;
pub mod tray;
pub mod wayland;
pub mod words;
