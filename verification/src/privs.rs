//! Privilege planning: how the launcher acquires and sheds capabilities
//! around the clone, decided from plain values; the capability syscalls
//! themselves are carried out by the caller.

use vstd::prelude::*;

use crate::error::SandboxError;

verus! {

/// How the launcher came by its privileges.
#[derive(Clone, Copy, Debug, PartialEq, Eq, Structural)]
pub enum PrivilegeMode {
    /// The binary is setuid root: move the filesystem uid back to the real
    /// uid, clear the bounding set, and install the required capability set.
    Privileged,
    /// The caller is really root: snapshot the current effective set as the
    /// requested capabilities and keep going.
    RootInherit,
    /// No privileges: rely on unprivileged user namespaces.
    Unprivileged,
}

/// One capability of the minimum set the sandbox construction needs.
#[derive(Clone, Copy, Debug, PartialEq, Eq, Structural)]
pub enum Capability {
    NetAdmin,
    SetGid,
    SetUid,
    SysAdmin,
    SysChroot,
    SysPtrace,
}

/// Decides how to acquire privileges from the caller's identity.  A setuid
/// binary whose effective uid is not root is misconfigured; capabilities
/// held without being setuid point at stale file capabilities and are
/// refused.
pub fn acquire_plan(real_uid: u32, effective_uid: u32, has_permitted_caps: bool) -> (r: Result<
    PrivilegeMode,
    SandboxError,
>)
    ensures
        real_uid != effective_uid && effective_uid != 0 ==> r == Err::<
            PrivilegeMode,
            SandboxError,
        >(SandboxError::UnexpectedSetuidUser(effective_uid)),
        real_uid != effective_uid && effective_uid == 0 ==> r == Ok::<PrivilegeMode, SandboxError>(
            PrivilegeMode::Privileged,
        ),
        real_uid == effective_uid && real_uid != 0 && has_permitted_caps ==> r == Err::<
            PrivilegeMode,
            SandboxError,
        >(SandboxError::UnexpectedCapabilities),
        real_uid == effective_uid && real_uid == 0 ==> r == Ok::<PrivilegeMode, SandboxError>(
            PrivilegeMode::RootInherit,
        ),
        real_uid == effective_uid && real_uid != 0 && !has_permitted_caps ==> r == Ok::<
            PrivilegeMode,
            SandboxError,
        >(PrivilegeMode::Unprivileged),
{
    if real_uid != effective_uid {
        if effective_uid != 0 {
            Err(SandboxError::UnexpectedSetuidUser(effective_uid))
        } else {
            Ok(PrivilegeMode::Privileged)
        }
    } else if real_uid != 0 && has_permitted_caps {
        Err(SandboxError::UnexpectedCapabilities)
    } else if real_uid == 0 {
        Ok(PrivilegeMode::RootInherit)
    } else {
        Ok(PrivilegeMode::Unprivileged)
    }
}

/// The minimum capability set the construction keeps for itself: network
/// administration for loopback, identity changes, mount administration,
/// chroot and ptrace.
pub fn required_caps() -> (r: Vec<Capability>)
    ensures
        r@ == seq![
            Capability::NetAdmin,
            Capability::SetGid,
            Capability::SetUid,
            Capability::SysAdmin,
            Capability::SysChroot,
            Capability::SysPtrace,
        ],
{
    let mut caps: Vec<Capability> = Vec::new();
    caps.push(Capability::NetAdmin);
    caps.push(Capability::SetGid);
    caps.push(Capability::SetUid);
    caps.push(Capability::SysAdmin);
    caps.push(Capability::SysChroot);
    caps.push(Capability::SysPtrace);
    proof {
        assert(caps@ =~= seq![
            Capability::NetAdmin,
            Capability::SetGid,
            Capability::SetUid,
            Capability::SysAdmin,
            Capability::SysChroot,
            Capability::SysPtrace,
        ]);
    }
    caps
}

/// For one capability during a sweep over all of them: whether to raise it
/// in the ambient set and whether to drop it from the bounding set.
pub fn cap_sweep_actions(
    should_keep: bool,
    do_bounding_set: bool,
    do_ambient_set: bool,
    ambient_supported: bool,
) -> (r: (bool, bool))
    ensures
        r.0 == (should_keep && do_ambient_set && ambient_supported),
        r.1 == (!should_keep && do_bounding_set),
{
    (
        should_keep && do_ambient_set && ambient_supported,
        !should_keep && do_bounding_set,
    )
}

/// Whether a failed adjustment of one capability may be ignored: the kernel
/// answering invalid-argument or permission-denied for a capability it does
/// not carry is tolerated, anything else stops the spawn.  The tolerated
/// error numbers are invalid-argument and the two permission refusals.
pub fn cap_adjust_failure_tolerated(errno: i32) -> (r: bool)
    ensures
        r == (errno == 22i32 || errno == 1i32 || errno == 13i32),
{
    errno == 22 || errno == 1 || errno == 13
}

/// What the child does right after the launcher's signal, before touching
/// the filesystem: clear the bounding set again (a fresh user namespace
/// restored it), and in the privileged mode keep capabilities across the
/// uid change, become the sandbox uid, and reinstall the required set.
pub struct SwitchUserPlan {
    pub set_keepcaps: bool,
    pub setuid_to: Option<u32>,
    pub reinstall_required_caps: bool,
}

/// Plans the switch to the sandbox user; see `SwitchUserPlan`.
pub fn switch_user_plan(privileged: bool, sandbox_uid: u32) -> (r: SwitchUserPlan)
    ensures
        r.set_keepcaps == privileged,
        r.setuid_to == (if privileged {
            Some(sandbox_uid)
        } else {
            None::<u32>
        }),
        r.reinstall_required_caps == privileged,
{
    SwitchUserPlan {
        set_keepcaps: privileged,
        setuid_to: if privileged {
            Some(sandbox_uid)
        } else {
            None
        },
        reinstall_required_caps: privileged,
    }
}

} // verus!
