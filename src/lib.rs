//! Pointer-chain resolution and value patching for a running process.
//!
//! The library holds the decisions; the caller performs the operating-system
//! work that each [`app::Action`] asks for and reports back an [`app::Event`].
pub mod config;
pub mod chain;
pub mod app;
