//! The recorder's command line, as the library sees it once parsed.

use vstd::prelude::*;
use std::path::PathBuf;

verus! {

/// The recorder's subcommands.
#[derive(Debug)]
pub enum Command {
    /// Start a recording session; session info is written to stdout as JSON.
    /// `out_dir` overrides the default output directory (~/.domino/recordings).
    Start { out_dir: Option<PathBuf> },
    /// Stop the currently active recording session.
    Stop,
    /// Print active session info as JSON, or "{}" if none.
    Status,
    /// Print diagnostic info about permissions, devices, OS version.
    Doctor,
}

/// A parsed command line.
#[derive(Debug)]
pub struct Cli {
    pub command: Command,
}

} // verus!
