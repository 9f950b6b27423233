//! Command model, expansion and throttling for a mixer control bridge.

pub mod args;
pub mod config;
pub mod midi;
pub mod motu;
pub mod text;
