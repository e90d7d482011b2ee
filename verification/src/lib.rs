//! Core of a desktop game-library launcher: launch planning, heuristic
//! discovery of the launched process, play-time accumulation with a
//! user-togglable pause, and the screenshot-ingest rules for a session.
//!
//! Everything here is a pure decision: the surrounding process spawning,
//! process-table polling, timers and filesystem watching live outside the
//! library and hand plain values in.

pub mod bytes;
pub mod discovery;
pub mod domain;
pub mod launcher;
pub mod monitor;
pub mod pause_manager;
pub mod scorer;
pub mod watcher;
