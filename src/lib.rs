//! Personal configuration-file backup: a registry of tracked files under
//! short aliases, a change-aware backup of each into a repository entry with
//! an append-only history, and a guarded restore.
//!
//! Everything here works on values; reading and writing files is left to the
//! caller.

pub mod cli;
pub mod commands;
pub mod config;
pub mod error;
pub mod history;
pub mod ops;
mod text;
pub mod timestamp;
pub mod ui;
