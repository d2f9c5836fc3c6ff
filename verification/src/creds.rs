//! Credential planning: the bodies written into a user namespace's
//! `uid_map`, `gid_map` and `setgroups` files, and the parsing of the
//! kernel's overflow-id files.

use vstd::prelude::*;
use vstd::string::StringExecFns;

use crate::error::SandboxError;
use crate::num::{
    format_u32, parse_u32, spec_all_digits, spec_dec, spec_dec_val, spec_trim, trim_spaces,
};

verus! {

/// The body of one id map: one line `<sandbox> <parent> 1`, preceded — when
/// the root of the namespace must be mapped and neither id is already root —
/// by a line mapping namespace id 0 to the overflow id.
pub open spec fn spec_id_map(
    sandbox_id: u32,
    parent_id: u32,
    overflow_id: u32,
    map_root: bool,
) -> Seq<char> {
    if map_root && parent_id != 0 && sandbox_id != 0 {
        "0 "@ + spec_dec(overflow_id as nat) + " 1\n"@ + spec_dec(sandbox_id as nat) + " "@
            + spec_dec(parent_id as nat) + " 1\n"@
    } else {
        spec_dec(sandbox_id as nat) + " "@ + spec_dec(parent_id as nat) + " 1\n"@
    }
}

/// Renders the body of one id map; see `spec_id_map`.
pub fn compose_id_map(sandbox_id: u32, parent_id: u32, overflow_id: u32, map_root: bool) -> (r:
    String)
    ensures
        r@ == spec_id_map(sandbox_id, parent_id, overflow_id, map_root),
{
    let mut out = String::new();
    if map_root && parent_id != 0 && sandbox_id != 0 {
        out.append("0 ");
        out.append(format_u32(overflow_id).as_str());
        out.append(" 1\n");
        out.append(format_u32(sandbox_id).as_str());
        out.append(" ");
        out.append(format_u32(parent_id).as_str());
        out.append(" 1\n");
    } else {
        out.append(format_u32(sandbox_id).as_str());
        out.append(" ");
        out.append(format_u32(parent_id).as_str());
        out.append(" 1\n");
    }
    proof {
        assert(out@ =~= spec_id_map(sandbox_id, parent_id, overflow_id, map_root));
    }
    out
}

/// Both id-map bodies of one namespace, plus whether `setgroups` is to be
/// denied before the gid map is written.
pub struct IdMapPlan {
    pub uid_map: String,
    pub gid_map: String,
    pub deny_groups: bool,
}

/// Plans the credential writes for one namespace: the uid map, the gid map
/// (symmetric, over the gid overflow id) and the `setgroups` denial.
pub fn plan_id_maps(
    sandbox_uid: u32,
    sandbox_gid: u32,
    parent_uid: u32,
    parent_gid: u32,
    overflow_uid: u32,
    overflow_gid: u32,
    deny_groups: bool,
    map_root: bool,
) -> (r: IdMapPlan)
    ensures
        r.uid_map@ == spec_id_map(sandbox_uid, parent_uid, overflow_uid, map_root),
        r.gid_map@ == spec_id_map(sandbox_gid, parent_gid, overflow_gid, map_root),
        r.deny_groups == deny_groups,
{
    IdMapPlan {
        uid_map: compose_id_map(sandbox_uid, parent_uid, overflow_uid, map_root),
        gid_map: compose_id_map(sandbox_gid, parent_gid, overflow_gid, map_root),
        deny_groups,
    }
}

/// The body written into `setgroups` to deny further group changes.
pub fn setgroups_content() -> (r: String)
    ensures
        r@ == "deny\n"@,
{
    String::from_str("deny\n")
}

/// Interprets the outcome of the `setgroups` write: a missing file is
/// tolerated — kernels predating the file have nothing to deny — while any
/// other failure stops the spawn.
pub fn setgroups_write_outcome(write_failed: bool, file_missing: bool) -> (r: Result<
    (),
    SandboxError,
>)
    ensures
        !write_failed ==> r is Ok,
        write_failed && file_missing ==> r is Ok,
        write_failed && !file_missing ==> r == Err::<(), SandboxError>(
            SandboxError::SetgroupsWriteFailed,
        ),
{
    if write_failed && !file_missing {
        Err(SandboxError::SetgroupsWriteFailed)
    } else {
        Ok(())
    }
}

/// Reads one overflow-id file body: the decimal id surrounded by optional
/// whitespace.  Anything else is refused as an invalid number.
pub fn parse_id_file(contents: &str) -> (r: Result<u32, SandboxError>)
    ensures
        ({
            let t = spec_trim(contents@);
            &&& (t.len() > 0 && spec_all_digits(t) && spec_dec_val(t) <= u32::MAX) ==> (r matches
                Ok(v) && v as nat == spec_dec_val(t))
            &&& !(t.len() > 0 && spec_all_digits(t) && spec_dec_val(t) <= u32::MAX) ==> r
                == Err::<u32, SandboxError>(SandboxError::InvalidNumber)
        }),
{
    match parse_u32(trim_spaces(contents)) {
        Some(v) => Ok(v),
        None => Err(SandboxError::InvalidNumber),
    }
}

/// The identity the confined process will run as: the configured override
/// where one is given, else the caller's real id.
pub fn effective_ids(
    uid_override: Option<u32>,
    gid_override: Option<u32>,
    real_uid: u32,
    real_gid: u32,
) -> (r: (u32, u32))
    ensures
        r.0 == (match uid_override {
            Some(u) => u,
            None => real_uid,
        }),
        r.1 == (match gid_override {
            Some(g) => g,
            None => real_gid,
        }),
{
    let uid = match uid_override {
        Some(u) => u,
        None => real_uid,
    };
    let gid = match gid_override {
        Some(g) => g,
        None => real_gid,
    };
    (uid, gid)
}

} // verus!
