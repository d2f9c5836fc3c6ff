//! Error taxonomy for sandbox construction and child-handle operations.

use vstd::prelude::*;

verus! {

/// Everything that can go wrong while building a sandbox or driving a child
/// process, other than mapping validation (see `MappingError`).
#[derive(Clone, Debug, PartialEq, Eq)]
pub enum SandboxError {
    /// `/proc/self/ns/user` is missing: the kernel offers no user namespaces.
    UserNamespacesUnsupported,
    /// `max_user_namespaces` is zero: user namespaces are administratively off.
    UserNamespacesDisabled,
    /// A numeric file (`max_user_namespaces`, an overflow id) did not hold a
    /// decimal number in range.
    InvalidNumber,
    /// The binary is setuid to a user other than root; the recorded value is
    /// the unexpected effective uid.
    UnexpectedSetuidUser(u32),
    /// The process holds capabilities without being setuid root.
    UnexpectedCapabilities,
    /// A mapping would bind-mount a procfs while sysctl access is not allowed.
    ProcfsNotPermitted,
    /// Writing `setgroups` failed for a reason other than the file missing.
    SetgroupsWriteFailed,
    /// `kill` was asked to signal a child whose exit status is already cached.
    AlreadyExited,
    /// The overlay filesystem controller answered something other than the
    /// expected acknowledgement; the reply is carried verbatim.
    InvalidReply(String),
    /// A netlink request was not echoed back verbatim.
    EchoMismatch,
    /// A mount table entry could not be parsed.
    MalformedMountInfo,
    /// A path that had to be absolute was not; it is carried verbatim.
    NotRooted(String),
    /// An operating-system call failed; the description is carried verbatim.
    Io(String),
}

} // verus!
