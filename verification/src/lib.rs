//! A verified model of a compile-time configuration macro: a TOML document
//! is loaded once at registration, and each `config!("dotted.path")` call
//! expands to the literal tokens of the value at that path, or to a supplied
//! fallback token when the path is absent.
pub mod config;
pub mod laws;
pub mod lower;
pub mod plugin;
pub mod value;
