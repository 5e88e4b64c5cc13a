//! The IBus engine: keys in, signals out.
pub mod address;
pub mod engine;
pub mod keyval;
pub mod laws;
pub mod session;
pub mod sink;
pub mod value;
