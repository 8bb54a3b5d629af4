//! Platform IPC endpoint: named pipe on Windows, unix socket elsewhere.

use vstd::prelude::*;

verus! {

/// Windows error of a pipe whose instances are all busy.
pub const ERROR_PIPE_BUSY: i32 = 231;

/// How long to wait for a busy pipe.
pub const PIPE_WAIT_MS: u64 = 2_000;

/// Pause between two attempts to open a busy pipe.
pub const PIPE_RETRY_MS: u64 = 20;

/// Whether to try again after a pipe could not be opened: only while it is busy
/// (another client is mid-handshake) and the deadline has not passed.
pub fn retry_pipe(os_error: Option<i32>, now: u64, deadline: u64) -> (r: bool)
    ensures
        r == (os_error == Some(ERROR_PIPE_BUSY) && now < deadline),
{
    match os_error {
        Some(e) => e == ERROR_PIPE_BUSY && now < deadline,
        None => false,
    }
}

} // verus!
