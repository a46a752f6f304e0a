//! What can go wrong while driving the supervisor.

use vstd::prelude::*;

verus! {

/// A failure of the supervisor or of the work around it.
#[derive(Debug)]
pub enum IsolateError {
    /// The supervisor could not set the box up.
    InitFailed { id: u32, message: String },
    /// The supervisor could not tear the box down.
    CleanupFailed { id: u32, message: String },
    /// The supervisor ran and failed, or could not be asked at all.
    CommandFailed(String),
    /// The supervisor could not be started.
    SpawnFailed(String),
    /// The supervisor's report could not be read strictly.
    MetaParseFailed(String),
    /// The box is not there or not set up.
    BoxNotFound(u32),
    /// The pool has no box to hand out.
    PoolExhausted,
    /// Reading or writing failed.
    Io(String),
    /// There is no supervisor at the given path.
    BinaryNotFound(String),
    /// A file name would lead out of the box.
    InvalidPath(String),
    /// A required mount has no source on the host.
    MountSourceNotFound(String),
    /// The program's standard input is closed.
    StdinClosed,
}

} // verus!
