//! Core logic of a desktop-application backend launcher.
//!
//! On startup the application locates a bundled server script, picks a
//! runtime interpreter from an ordered candidate list, spawns the script as a
//! detached child process, and records every step in a diagnostic log.  This
//! crate holds the decision logic of that sequence — candidate construction,
//! de-duplication, selection, the launch state machine, and the exact text of
//! every log line — each function with a proved contract.  The surrounding
//! binary performs the filesystem checks, environment lookups, process
//! spawning and log-file writes, and feeds their outcomes back in as plain
//! values.

pub mod interpreter_locator;
pub mod log_format;
pub mod orchestrator;
pub mod script_locator;
