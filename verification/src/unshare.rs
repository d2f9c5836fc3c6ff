//! Namespace planning: the clone flags, the user-namespace preconditions,
//! and the path translations used while the new root is built.

use vstd::prelude::*;
use vstd::string::StrSliceExecFns;

use crate::error::SandboxError;
use crate::mapping::Mapping;
use crate::num::{parse_u32, spec_all_digits, spec_dec_val, spec_trim, trim_spaces};
use crate::path::{reroot_path, spec_is_absolute};

verus! {

/// The signal delivered to the launcher when the child exits.
pub const SIGCHLD: u64 = 17;

/// New mount namespace.
pub const CLONE_NEWNS: u64 = 0x0002_0000;

/// New user namespace.
pub const CLONE_NEWUSER: u64 = 0x1000_0000;

/// New PID namespace.
pub const CLONE_NEWPID: u64 = 0x2000_0000;

/// New network namespace.
pub const CLONE_NEWNET: u64 = 0x4000_0000;

/// The clone flags for one configuration: always a new mount and user
/// namespace with the child-exit signal; a new PID namespace unless sysctl
/// access is allowed; a new network namespace unless the host network is
/// allowed.
pub open spec fn spec_clone_flags(allow_sysctl: bool, allow_network: bool) -> u64 {
    (SIGCHLD | CLONE_NEWNS | CLONE_NEWUSER) | (if !allow_sysctl {
        CLONE_NEWPID
    } else {
        0
    }) | (if !allow_network {
        CLONE_NEWNET
    } else {
        0
    })
}

/// Computes the clone flags; see `spec_clone_flags`.
pub fn clone_flags(allow_sysctl: bool, allow_network: bool) -> (r: u64)
    ensures
        r == spec_clone_flags(allow_sysctl, allow_network),
{
    let mut flags: u64 = SIGCHLD | CLONE_NEWNS | CLONE_NEWUSER;
    if !allow_sysctl {
        flags = flags | CLONE_NEWPID;
    }
    if !allow_network {
        flags = flags | CLONE_NEWNET;
    }
    proof {
        let base = SIGCHLD | CLONE_NEWNS | CLONE_NEWUSER;
        assert(base | 0u64 == base) by (bit_vector);
        let with_pid = base | CLONE_NEWPID;
        assert(with_pid | 0u64 == with_pid) by (bit_vector);
    }
    flags
}

/// Law: the flags join a new PID namespace exactly when sysctl access is
/// denied, and a new network namespace exactly when the host network is
/// denied.
pub proof fn lemma_clone_flags_namespaces(allow_sysctl: bool, allow_network: bool)
    ensures
        (spec_clone_flags(allow_sysctl, allow_network) & CLONE_NEWPID != 0) <==> !allow_sysctl,
        (spec_clone_flags(allow_sysctl, allow_network) & CLONE_NEWNET != 0) <==> !allow_network,
{
    if allow_sysctl {
        if allow_network {
            assert(((17u64 | 0x0002_0000u64 | 0x1000_0000u64) | 0u64 | 0u64) & 0x2000_0000u64
                == 0) by (bit_vector);
            assert(((17u64 | 0x0002_0000u64 | 0x1000_0000u64) | 0u64 | 0u64) & 0x4000_0000u64
                == 0) by (bit_vector);
        } else {
            assert(((17u64 | 0x0002_0000u64 | 0x1000_0000u64) | 0u64 | 0x4000_0000u64)
                & 0x2000_0000u64 == 0) by (bit_vector);
            assert(((17u64 | 0x0002_0000u64 | 0x1000_0000u64) | 0u64 | 0x4000_0000u64)
                & 0x4000_0000u64 != 0) by (bit_vector);
        }
    } else {
        if allow_network {
            assert(((17u64 | 0x0002_0000u64 | 0x1000_0000u64) | 0x2000_0000u64 | 0u64)
                & 0x2000_0000u64 != 0) by (bit_vector);
            assert(((17u64 | 0x0002_0000u64 | 0x1000_0000u64) | 0x2000_0000u64 | 0u64)
                & 0x4000_0000u64 == 0) by (bit_vector);
        } else {
            assert(((17u64 | 0x0002_0000u64 | 0x1000_0000u64) | 0x2000_0000u64 | 0x4000_0000u64)
                & 0x2000_0000u64 != 0) by (bit_vector);
            assert(((17u64 | 0x0002_0000u64 | 0x1000_0000u64) | 0x2000_0000u64 | 0x4000_0000u64)
                & 0x4000_0000u64 != 0) by (bit_vector);
        }
    }
}

/// Refuses to go on when the kernel offers no user namespaces (the
/// namespace file is absent).
pub fn check_user_ns_support(ns_file_exists: bool) -> (r: Result<(), SandboxError>)
    ensures
        ns_file_exists ==> r is Ok,
        !ns_file_exists ==> r == Err::<(), SandboxError>(SandboxError::UserNamespacesUnsupported),
{
    if ns_file_exists {
        Ok(())
    } else {
        Err(SandboxError::UserNamespacesUnsupported)
    }
}

/// The signed decimal number a kernel counter file holds, within the range
/// of a 32-bit signed integer.
pub open spec fn spec_parse_i32(t: Seq<char>) -> Option<int> {
    if t.len() > 0 && t[0] == '-' {
        let digits = t.drop_first();
        if digits.len() > 0 && spec_all_digits(digits) && spec_dec_val(digits) <= 0x8000_0000 {
            Some(-(spec_dec_val(digits) as int))
        } else {
            None
        }
    } else if t.len() > 0 && spec_all_digits(t) && spec_dec_val(t) <= 0x7FFF_FFFF {
        Some(spec_dec_val(t) as int)
    } else {
        None
    }
}

/// Reads the `max_user_namespaces` counter: an unreadable number is an
/// error, the number zero means user namespaces are administratively
/// disabled, anything else lets the spawn go on.
pub fn check_max_user_namespaces(contents: &str) -> (r: Result<(), SandboxError>)
    ensures
        ({
            let parsed = spec_parse_i32(spec_trim(contents@));
            &&& parsed is None ==> r == Err::<(), SandboxError>(SandboxError::InvalidNumber)
            &&& (parsed matches Some(v) && v == 0) ==> r == Err::<(), SandboxError>(
                SandboxError::UserNamespacesDisabled,
            )
            &&& (parsed matches Some(v) && v != 0) ==> r is Ok
        }),
{
    let t = trim_spaces(contents);
    let n = t.unicode_len();
    if n > 0 && t.get_char(0) == '-' {
        let digits = t.substring_char(1, n);
        proof {
            assert(digits@ =~= spec_trim(contents@).drop_first());
        }
        match parse_u32(digits) {
            Some(v) => {
                if v == 0 {
                    Err(SandboxError::UserNamespacesDisabled)
                } else if v <= 0x8000_0000 {
                    Ok(())
                } else {
                    Err(SandboxError::InvalidNumber)
                }
            },
            None => Err(SandboxError::InvalidNumber),
        }
    } else {
        match parse_u32(t) {
            Some(v) => {
                if v == 0 {
                    Err(SandboxError::UserNamespacesDisabled)
                } else if v <= 0x7FFF_FFFF {
                    Ok(())
                } else {
                    Err(SandboxError::InvalidNumber)
                }
            },
            None => Err(SandboxError::InvalidNumber),
        }
    }
}

/// Where one mapping is bind-mounted while both roots are staged: the
/// source read through the old root, the destination created under the new
/// root.
pub struct MountPaths {
    pub source: String,
    pub dest: String,
}

/// Translates one resolved mapping into its staged source and destination.
/// The host path must be absolute by now — resolution produces absolute
/// paths — and is refused otherwise.
pub fn mapping_mount_paths(m: &Mapping) -> (r: Result<MountPaths, SandboxError>)
    requires
        m.wf(),
    ensures
        spec_is_absolute(m@.host) ==> (r matches Ok(p) && p.source@ == "/old_root"@ + m@.host
            && p.dest@ == "/new_root"@ + m@.sandbox),
        !spec_is_absolute(m@.host) ==> (r matches Err(e) && e matches SandboxError::NotRooted(q)
            && q@ == m@.host),
{
    let source = match reroot_path("/old_root", m.host_path().as_str()) {
        Ok(s) => s,
        Err(e) => {
            return Err(e);
        },
    };
    let dest = match reroot_path("/new_root", m.sandbox_path().as_str()) {
        Ok(s) => s,
        Err(e) => {
            return Err(e);
        },
    };
    Ok(MountPaths { source, dest })
}

/// Translates a soft-link destination or a declared directory to its place
/// under the staged new root.
pub fn new_root_target(path: &str) -> (r: Result<String, SandboxError>)
    ensures
        spec_is_absolute(path@) ==> (r matches Ok(s) && s@ == "/new_root"@ + path@),
        !spec_is_absolute(path@) ==> (r matches Err(e) && e matches SandboxError::NotRooted(q)
            && q@ == path@),
{
    reroot_path("/new_root", path)
}

} // verus!
