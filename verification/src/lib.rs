//! Helper library for a desktop command catalog: a persisted catalog of
//! shell commands, a preview simulator, and a terminal launcher that embeds
//! a command into a wrapper script and picks the first available emulator.

pub mod catalog;
pub mod codec;
pub mod escape;
pub mod launcher;
pub mod simulator;
pub mod store;
pub mod wrapper;
