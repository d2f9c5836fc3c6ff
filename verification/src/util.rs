//! Interpreting raw syscall results: which return value is a failure, and
//! which failure is retried.

use vstd::prelude::*;

verus! {

/// The error number of an interrupted syscall, the one failure that is
/// retried rather than surfaced.
pub const EINTR: i32 = 4;

/// Whether a raw syscall return value reports a failure.
pub fn syscall_failed(status: i32) -> (r: bool)
    ensures
        r == (status == -1i32),
{
    status == -1
}

/// Whether a failed wait is retried: only an interruption by a signal is.
pub fn should_retry(errno: i32) -> (r: bool)
    ensures
        r == (errno == EINTR),
{
    errno == EINTR
}

} // verus!
