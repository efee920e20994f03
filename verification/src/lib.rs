//! Verified core of a desktop-application shell that provisions a per-user
//! database, launches a bundled backend server process, and relays the port
//! the backend announces in its log output to the GUI layer.
//!
//! The shell around this crate does the actual I/O: it resolves
//! directories, copies files, spawns the backend, appends to the log file
//! and evaluates scripts in the webview. Every decision and every piece of
//! text those steps work with is computed here, under contract.
use vstd::prelude::*;

pub mod ansi;
pub mod config;
pub mod port;
pub mod setup;
pub mod supervisor;

verus! {

/// The port the backend is asked to bind; the GUI believes in it until the
/// backend's log output announces a different one.
pub const DEFAULT_PORT: u16 = 8000;

} // verus!
