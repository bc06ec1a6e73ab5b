//! The recording session record kept in the PID file, and the decisions
//! taken around it: whether a recorded session is still running, and how a
//! stop request proceeds.

use vstd::prelude::*;
use std::path::PathBuf;

verus! {

/// `std::path::PathBuf`, carried through unchanged: the library only stores
/// and hands back session directories.
#[verifier::external_type_specification]
#[verifier::external_body]
pub struct ExPathBuf(PathBuf);

/// How long a stop request waits for the recorder to exit after `SIGTERM`
/// before it sends `SIGKILL`.
pub const STOP_GRACE_MS: u64 = 5_000;
/// How often a stop request polls whether the recorder is still alive.
pub const STOP_POLL_MS: u64 = 100;

/// The active session, as written to the PID file.
#[derive(Debug)]
pub struct SessionInfo {
    pub pid: u32,
    pub session_dir: PathBuf,
    pub started_at: String,
}

impl SessionInfo {
    /// The record of the recorder process `pid` writing into `session_dir`,
    /// started at the RFC 3339 time `started_at`.
    pub fn new(pid: u32, session_dir: PathBuf, started_at: String) -> (info: SessionInfo)
        ensures
            info.pid == pid,
            info.session_dir == session_dir,
            info.started_at@ == started_at@,
    {
        SessionInfo { pid, session_dir, started_at }
    }
}

/// What a PID file found on disk stands for.
#[derive(Debug)]
pub enum PidRecord {
    /// The recorder it names is running: this is the active session.
    Active(SessionInfo),
    /// The recorder it names is gone: the file is stale and is removed.
    Stale(SessionInfo),
}

/// Classifies a parsed PID file by whether its process is still alive.
pub fn classify_pid_record(info: SessionInfo, alive: bool) -> (rec: PidRecord)
    ensures
        alive ==> rec == PidRecord::Active(info),
        !alive ==> rec == PidRecord::Stale(info),
{
    if alive {
        PidRecord::Active(info)
    } else {
        PidRecord::Stale(info)
    }
}

/// One step of a stop request, taken after each liveness poll.
#[derive(Debug, Clone, Copy, PartialEq, Eq, Structural)]
pub enum StopStep {
    /// The recorder has exited.
    Exited,
    /// Still running within the grace period: sleep one poll interval.
    Wait,
    /// Still running after the grace period: send `SIGKILL`.
    Kill,
}

/// Decides a stop request's next step from the latest liveness poll and the
/// time elapsed since `SIGTERM` was sent.
pub fn stop_step(alive: bool, elapsed_ns: u128) -> (step: StopStep)
    ensures
        !alive ==> step == StopStep::Exited,
        alive && elapsed_ns < STOP_GRACE_MS * 1_000_000 ==> step == StopStep::Wait,
        alive && elapsed_ns >= STOP_GRACE_MS * 1_000_000 ==> step == StopStep::Kill,
{
    if !alive {
        StopStep::Exited
    } else if elapsed_ns < (STOP_GRACE_MS as u128) * 1_000_000 {
        StopStep::Wait
    } else {
        StopStep::Kill
    }
}

} // verus!
