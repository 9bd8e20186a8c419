//! Remote filesystem backends.

pub mod gdrive;
pub mod sftp;

use vstd::prelude::*;

verus! {

/// Attribute changes to apply to a remote path.
#[derive(Clone, Copy, Debug, PartialEq, Eq, Structural)]
pub struct AttrChange {
    pub size: Option<u64>,
    pub uid: Option<u32>,
    pub gid: Option<u32>,
    pub perm: Option<u32>,
    pub atime: Option<u64>,
    pub mtime: Option<u64>,
}

/// What a thread does about a backend of its own.
#[derive(Clone, Copy, Debug, PartialEq, Eq, Structural)]
pub enum WorkerAction {
    /// It works with the one it has.
    Use,
    /// It connects.
    Connect,
    /// It keeps the one that it connected, and works with that.
    Keep,
    /// It goes without: it could not connect. The next work tries again.
    Skip,
}

/// Decides what a thread does about a backend of its own; `connected` says whether it could
/// connect, once it tried.
pub fn worker_action(has_worker: bool, connected: Option<bool>) -> (a: WorkerAction)
    ensures
        a == (match (has_worker, connected) {
            (true, _) => WorkerAction::Use,
            (false, None) => WorkerAction::Connect,
            (false, Some(true)) => WorkerAction::Keep,
            (false, Some(false)) => WorkerAction::Skip,
        }),
{
    match (has_worker, connected) {
        (true, _) => WorkerAction::Use,
        (false, None) => WorkerAction::Connect,
        (false, Some(true)) => WorkerAction::Keep,
        (false, Some(false)) => WorkerAction::Skip,
    }
}

} // verus!
