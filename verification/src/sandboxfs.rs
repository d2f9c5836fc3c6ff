//! The overlay filesystem control protocol: newline-delimited JSON messages
//! that ask the overlay to expose or withdraw mappings, the acknowledgement
//! those messages await, and the liveness probe the controller runs on its
//! sibling process.

use vstd::prelude::*;
use vstd::string::StrSliceExecFns;
use vstd::string::StringExecFns;

use crate::error::SandboxError;
use crate::mapping::{Mapping, MappingModel, Mappings};
use crate::num::str_eq;
use crate::path::spec_is_absolute;

verus! {

/// JSON string escaping, as far as paths need it: backslash and quote are
/// escaped, everything else is carried verbatim.
pub open spec fn spec_json_escape(s: Seq<char>) -> Seq<char>
    decreases s.len(),
{
    if s.len() == 0 {
        Seq::empty()
    } else {
        (if s[0] == '\\' {
            seq!['\\', '\\']
        } else if s[0] == '"' {
            seq!['\\', '"']
        } else {
            seq![s[0]]
        }) + spec_json_escape(s.drop_first())
    }
}

/// Escapes one path for embedding in a JSON string literal.
pub fn json_escape(s: &str) -> (r: String)
    ensures
        r@ == spec_json_escape(s@),
{
    let n = s.unicode_len();
    let mut out = String::new();
    let mut pos: usize = 0;
    proof {
        assert(s@.subrange(0, n as int) =~= s@);
    }
    while pos < n
        invariant
            n == s@.len(),
            0 <= pos <= n,
            out@ + spec_json_escape(s@.subrange(pos as int, n as int)) == spec_json_escape(s@),
        decreases n - pos,
    {
        let ghost sub = s@.subrange(pos as int, n as int);
        let ghost out_prev = out@;
        let c = s.get_char(pos);
        proof {
            assert(sub[0] == c);
        }
        if c == '\\' {
            out.push('\\');
            out.push('\\');
            proof {
                assert(out@ =~= out_prev + seq!['\\', '\\']);
            }
        } else if c == '"' {
            out.push('\\');
            out.push('"');
            proof {
                assert(out@ =~= out_prev + seq!['\\', '"']);
            }
        } else {
            out.push(c);
            proof {
                assert(out@ =~= out_prev + seq![sub[0]]);
            }
        }
        pos = pos + 1;
        proof {
            assert(sub.drop_first() =~= s@.subrange(pos as int, n as int));
            assert(out@ + spec_json_escape(s@.subrange(pos as int, n as int)) =~= out_prev
                + spec_json_escape(sub));
        }
    }
    proof {
        assert(s@.subrange(n as int, n as int) =~= Seq::<char>::empty());
        assert(out@ + Seq::<char>::empty() =~= out@);
    }
    out
}

/// One map operation: expose `sandbox` backed by `host`, writable or not.
pub open spec fn spec_map_op(m: MappingModel) -> Seq<char> {
    "{\"Map\":{\"Mapping\":\""@ + spec_json_escape(m.sandbox) + "\",\"Target\":\""@
        + spec_json_escape(m.host) + "\",\"Writable\":"@ + (if m.writable {
        "true"@
    } else {
        "false"@
    }) + "}}"@
}

/// The comma-separated map operations of a whole mapping list.
pub open spec fn spec_map_ops(ms: Seq<Mapping>) -> Seq<char>
    decreases ms.len(),
{
    if ms.len() == 0 {
        Seq::empty()
    } else if ms.len() == 1 {
        spec_map_op(ms[0]@)
    } else {
        spec_map_op(ms[0]@) + ","@ + spec_map_ops(ms.drop_first())
    }
}

/// The one-line mount request: the map operations as a JSON list.
pub open spec fn spec_mount_message(ms: Seq<Mapping>) -> Seq<char> {
    "["@ + spec_map_ops(ms) + "]\n"@
}

fn push_map_op(out: &mut String, m: &Mapping)
    ensures
        final(out)@ == old(out)@ + spec_map_op(m@),
{
    out.append("{\"Map\":{\"Mapping\":\"");
    out.append(json_escape(m.sandbox_path().as_str()).as_str());
    out.append("\",\"Target\":\"");
    out.append(json_escape(m.host_path().as_str()).as_str());
    out.append("\",\"Writable\":");
    if m.is_writable() {
        out.append("true");
    } else {
        out.append("false");
    }
    out.append("}}");
    proof {
        assert(final(out)@ =~= old(out)@ + spec_map_op(m@));
    }
}

/// Renders the mount request for a mapping list; see `spec_mount_message`.
pub fn mount_message(mappings: &Vec<Mapping>) -> (r: String)
    ensures
        r@ == spec_mount_message(mappings@),
{
    let mut out = String::new();
    out.append("[");
    let ghost gms = mappings@;
    let mut idx: usize = 0;
    proof {
        assert(gms.skip(0) =~= gms);
        assert(out@ =~= "["@ + Seq::<char>::empty());
    }
    while idx < mappings.len()
        invariant
            gms == mappings@,
            0 <= idx <= gms.len(),
            out@ + spec_map_ops(gms.skip(idx as int)) == "["@ + spec_map_ops(gms),
        decreases gms.len() - idx,
    {
        let ghost rest = gms.skip(idx as int);
        proof {
            assert(rest[0] == gms[idx as int]);
            assert(rest.drop_first() =~= gms.skip(idx + 1));
        }
        let ghost out_prev = out@;
        push_map_op(&mut out, &mappings[idx]);
        if idx + 1 < mappings.len() {
            out.append(",");
            proof {
                assert(rest.len() >= 2);
                assert(out@ + spec_map_ops(gms.skip(idx + 1)) =~= out_prev + spec_map_ops(rest));
            }
        } else {
            proof {
                assert(rest.len() == 1);
                assert(gms.skip(idx + 1) =~= Seq::<Mapping>::empty());
                assert(out@ + spec_map_ops(gms.skip(idx + 1)) =~= out_prev + spec_map_ops(rest));
            }
        }
        idx = idx + 1;
    }
    proof {
        assert(gms.skip(gms.len() as int) =~= Seq::<Mapping>::empty());
        assert(out@ + Seq::<char>::empty() =~= out@);
    }
    out.append("]\n");
    proof {
        assert(out@ =~= spec_mount_message(mappings@));
    }
    out
}

/// One unmap operation: withdraw the mapping at `sandbox`.
pub open spec fn spec_unmap_op(p: Seq<char>) -> Seq<char> {
    "{\"Unmap\":\""@ + spec_json_escape(p) + "\"}"@
}

/// The comma-separated unmap operations of a path list.
pub open spec fn spec_unmap_ops(ps: Seq<String>) -> Seq<char>
    decreases ps.len(),
{
    if ps.len() == 0 {
        Seq::empty()
    } else if ps.len() == 1 {
        spec_unmap_op(ps[0]@)
    } else {
        spec_unmap_op(ps[0]@) + ","@ + spec_unmap_ops(ps.drop_first())
    }
}

/// The one-line unmount request: the unmap operations as a JSON list.
pub open spec fn spec_unmount_message(ps: Seq<String>) -> Seq<char> {
    "["@ + spec_unmap_ops(ps) + "]\n"@
}

/// Renders the unmount request for a list of sandbox paths; see
/// `spec_unmount_message`.
pub fn unmount_message(paths: &Vec<String>) -> (r: String)
    ensures
        r@ == spec_unmount_message(paths@),
{
    let mut out = String::new();
    out.append("[");
    let ghost gps = paths@;
    let mut idx: usize = 0;
    proof {
        assert(gps.skip(0) =~= gps);
        assert(out@ =~= "["@ + Seq::<char>::empty());
    }
    while idx < paths.len()
        invariant
            gps == paths@,
            0 <= idx <= gps.len(),
            out@ + spec_unmap_ops(gps.skip(idx as int)) == "["@ + spec_unmap_ops(gps),
        decreases gps.len() - idx,
    {
        let ghost rest = gps.skip(idx as int);
        proof {
            assert(rest[0] == gps[idx as int]);
            assert(rest.drop_first() =~= gps.skip(idx + 1));
        }
        let ghost out_prev = out@;
        out.append("{\"Unmap\":\"");
        out.append(json_escape(paths[idx].as_str()).as_str());
        out.append("\"}");
        proof {
            assert(out@ =~= out_prev + spec_unmap_op(gps[idx as int]@));
        }
        let ghost out_mid = out@;
        if idx + 1 < paths.len() {
            out.append(",");
            proof {
                assert(rest.len() >= 2);
                assert(out@ + spec_unmap_ops(gps.skip(idx + 1)) =~= out_prev + spec_unmap_ops(
                    rest,
                ));
            }
        } else {
            proof {
                assert(rest.len() == 1);
                assert(gps.skip(idx + 1) =~= Seq::<String>::empty());
                assert(out@ + spec_unmap_ops(gps.skip(idx + 1)) =~= out_prev + spec_unmap_ops(
                    rest,
                ));
            }
        }
        idx = idx + 1;
    }
    proof {
        assert(gps.skip(gps.len() as int) =~= Seq::<String>::empty());
        assert(out@ + Seq::<char>::empty() =~= out@);
    }
    out.append("]\n");
    proof {
        assert(out@ =~= spec_unmount_message(paths@));
    }
    out
}

/// The empty request the controller sends right after the overlay thread
/// starts: a blank operation list and a blank line, answered once the
/// overlay is mounted and serving.
pub fn sync_message() -> (r: String)
    ensures
        r@ == "[]\n\n"@,
{
    String::from_str("[]\n\n")
}

/// The acknowledgement every request awaits.
pub fn expected_reply() -> (r: String)
    ensures
        r@ == "Done\n"@,
{
    String::from_str("Done\n")
}

/// Judges the overlay's reply to the startup request: anything but the
/// acknowledgement line is a failure carrying the reply verbatim.  The
/// caller blocks reading the reply before calling this, hence the name.
pub fn block_until_mounted(reply: &str) -> (r: Result<(), SandboxError>)
    ensures
        (r is Ok) == (reply@ == "Done\n"@),
        r matches Err(e) ==> (e matches SandboxError::InvalidReply(q) && q@ == reply@),
{
    if str_eq(reply, "Done\n") {
        Ok(())
    } else {
        Err(SandboxError::InvalidReply(String::from_str(reply)))
    }
}

/// Resolves every host path of the mapping list for the overlay: symbolic
/// links expanded, order, sandbox paths and writability kept; the first
/// resolution failure is returned instead.
pub fn to_sandboxfs_mappings(mappings: &Mappings) -> (r: Result<Vec<Mapping>, SandboxError>)
    ensures
        r matches Ok(v) ==> {
            &&& v@.len() == mappings@.len()
            &&& forall|i: int|
                0 <= i < v@.len() ==> {
                    &&& (#[trigger] v@[i])@.sandbox == mappings@[i]@.sandbox
                    &&& v@[i]@.writable == mappings@[i]@.writable
                    &&& spec_is_absolute(v@[i]@.host)
                }
        },
        mappings@.len() == 0 ==> (r matches Ok(v) && v@.len() == 0),
{
    mappings.resolve_symlinks()
}

/// What one probe of the sandboxed sibling says about it.
#[derive(Clone, Copy, Debug, PartialEq, Eq, Structural)]
pub enum SiblingProbe {
    /// Still there (the null signal went through, or was refused for
    /// ownership reasons only).
    Alive,
    /// Gone: time to unmount and leave.
    Exited,
    /// The probe itself failed for another reason; surface it.
    Failed,
}

/// Interprets a null-signal probe of the sibling process: permission
/// refusals mean it is alive under another identity, a missing process
/// means it exited, anything else is surfaced.  The interesting error
/// numbers are operation-not-permitted and no-such-process.
pub fn interpret_liveness_probe(probe_failed: bool, errno: i32) -> (r: SiblingProbe)
    ensures
        !probe_failed ==> r == SiblingProbe::Alive,
        probe_failed && errno == 1i32 ==> r == SiblingProbe::Alive,
        probe_failed && errno == 3i32 ==> r == SiblingProbe::Exited,
        probe_failed && errno != 1i32 && errno != 3i32 ==> r == SiblingProbe::Failed,
{
    if !probe_failed {
        SiblingProbe::Alive
    } else if errno == 1 {
        SiblingProbe::Alive
    } else if errno == 3 {
        SiblingProbe::Exited
    } else {
        SiblingProbe::Failed
    }
}

} // verus!
