//! The spawn protocol around the clone: what the launcher does after the
//! child exists, and what the child does once the launcher signals it.

use vstd::prelude::*;

verus! {

/// What the child carries out after the launcher's signal, in order:
/// switch to the sandbox user, optionally bring up loopback, optionally
/// author its own id maps, build the new root, optionally enter a second
/// user namespace mapping the temporary identity to the final one, drop
/// capabilities, and optionally raise the required set into the ambient
/// set so it survives the exec.
pub struct ChildSetupPlan {
    /// Bring up the loopback device — exactly when the host network is
    /// denied and a fresh network namespace was joined.
    pub configure_loopback: bool,
    /// Write the id maps from inside — exactly when the launcher is
    /// unprivileged and could not author them from outside.
    pub write_own_map: bool,
    /// The uid the child holds inside the namespace while it builds the new
    /// root: root in the unprivileged mode (so privileged mounts work),
    /// else the sandbox uid.
    pub ns_uid: u32,
    /// The gid counterpart of `ns_uid`.
    pub ns_gid: u32,
    /// Enter a second user namespace and rewrite the maps — exactly when
    /// the temporary identity differs from the final one.
    pub second_userns: bool,
    /// Raise the required capabilities into the ambient set — exactly in
    /// the unprivileged mode, where nothing else preserves them across
    /// exec.
    pub raise_ambient: bool,
}

/// Plans the child's post-clone setup; see `ChildSetupPlan`.
pub fn child_setup_plan(
    privileged: bool,
    allow_network: bool,
    sandbox_uid: u32,
    sandbox_gid: u32,
) -> (r: ChildSetupPlan)
    ensures
        r.configure_loopback == !allow_network,
        r.write_own_map == !privileged,
        r.ns_uid == (if privileged {
            sandbox_uid
        } else {
            0u32
        }),
        r.ns_gid == (if privileged {
            sandbox_gid
        } else {
            0u32
        }),
        r.second_userns == (r.ns_uid != sandbox_uid || r.ns_gid != sandbox_gid),
        r.raise_ambient == !privileged,
{
    let ns_uid: u32 = if privileged {
        sandbox_uid
    } else {
        0
    };
    let ns_gid: u32 = if privileged {
        sandbox_gid
    } else {
        0
    };
    ChildSetupPlan {
        configure_loopback: !allow_network,
        write_own_map: !privileged,
        ns_uid,
        ns_gid,
        second_userns: ns_uid != sandbox_uid || ns_gid != sandbox_gid,
        raise_ambient: !privileged,
    }
}

/// What the launcher does right after the clone, in order: author the
/// child's id maps when privileged (the child could not), drop every
/// privilege, then signal the child to proceed.
pub struct ParentPostClonePlan {
    /// Write the child's id maps from outside — exactly in the privileged
    /// mode, where the child's namespace cannot author a map onto a
    /// non-root uid itself.
    pub write_child_maps: bool,
    /// The maps, when written from outside, map namespace root to the
    /// overflow id so that a devpts mount inside does not fail.
    pub map_root: bool,
}

/// Plans the launcher's post-clone duties; see `ParentPostClonePlan`.
pub fn parent_post_clone_plan(privileged: bool) -> (r: ParentPostClonePlan)
    ensures
        r.write_child_maps == privileged,
        r.map_root,
{
    ParentPostClonePlan { write_child_maps: privileged, map_root: true }
}

} // verus!
