//! Interpreting the kernel's mount table: splitting its lines into fields,
//! unescaping mount points, reading option flags, and planning the
//! remounts that impose the sandbox's flags on a freshly bound subtree.

use vstd::prelude::*;
use vstd::string::StrSliceExecFns;

use crate::error::SandboxError;
use crate::num::str_eq;
use crate::path::{path_starts_with, spec_path_starts_with};

verus! {

/// Splitting a string at a separator: the pieces between separators, in
/// order, the empty string between adjacent separators and at either end.
pub open spec fn spec_split(s: Seq<char>, sep: char) -> Seq<Seq<char>>
    decreases s.len(),
{
    if s.len() == 0 {
        seq![Seq::<char>::empty()]
    } else {
        let rest = spec_split(s.drop_first(), sep);
        if s[0] == sep {
            seq![Seq::<char>::empty()] + rest
        } else {
            seq![seq![s[0]] + rest[0]] + rest.drop_first()
        }
    }
}

/// A split always yields at least one piece.
proof fn lemma_split_nonempty(s: Seq<char>, sep: char)
    ensures
        spec_split(s, sep).len() >= 1,
    decreases s.len(),
{
    if s.len() > 0 {
        lemma_split_nonempty(s.drop_first(), sep);
    }
}

/// Splits a string at every occurrence of the separator.
pub fn split_char(s: &str, sep: char) -> (r: Vec<String>)
    ensures
        r@.len() == spec_split(s@, sep).len(),
        forall|i: int| 0 <= i < r@.len() ==> (#[trigger] r@[i])@ == spec_split(s@, sep)[i],
{
    let n = s.unicode_len();
    let mut done: Vec<String> = Vec::new();
    let mut cur = String::new();
    let mut pos: usize = 0;
    proof {
        assert(s@.subrange(0, n as int) =~= s@);
        lemma_split_nonempty(s@, sep);
        assert(Seq::<char>::empty() + spec_split(s@, sep)[0] =~= spec_split(s@, sep)[0]);
    }
    while pos < n
        invariant
            n == s@.len(),
            0 <= pos <= n,
            ({
                let tail = spec_split(s@.subrange(pos as int, n as int), sep);
                let full = spec_split(s@, sep);
                &&& tail.len() >= 1
                &&& full.len() == done@.len() + tail.len()
                &&& (forall|i: int| 0 <= i < done@.len() ==> full[i] == (#[trigger] done@[i])@)
                &&& full[done@.len() as int] == cur@ + tail[0]
                &&& (forall|j: int| 1 <= j < tail.len() ==> full[done@.len() + j] == #[trigger] tail[j])
            }),
        decreases n - pos,
    {
        let ghost sub = s@.subrange(pos as int, n as int);
        let ghost tail = spec_split(sub, sep);
        let ghost sub2 = s@.subrange(pos + 1, n as int);
        let ghost tail2 = spec_split(sub2, sep);
        proof {
            assert(sub.len() > 0);
            assert(sub[0] == s@[pos as int]);
            assert(sub.drop_first() =~= sub2);
            lemma_split_nonempty(sub2, sep);
        }
        let ghost cur_prev = cur@;
        let ghost done_prev = done@;
        let c = s.get_char(pos);
        if c == sep {
            proof {
                assert(tail =~= seq![Seq::<char>::empty()] + tail2);
                assert(tail[0] == Seq::<char>::empty());
                assert(cur@ + tail[0] =~= cur@);
                assert(forall|j: int| 1 <= j < tail.len() ==> tail[j] == #[trigger] tail2[j - 1]);
            }
            done.push(cur);
            cur = String::new();
            proof {
                let full = spec_split(s@, sep);
                assert(Seq::<char>::empty() + tail2[0] =~= tail2[0]);
                assert(full[done_prev.len() as int] == cur_prev + tail[0]);
                assert(cur_prev + tail[0] =~= cur_prev);
                assert(done@[done_prev.len() as int]@ == cur_prev);
                assert(tail[1] == tail2[0]);
                assert(full[done_prev.len() as int + 1] == tail[1]);
                assert forall|j: int| 1 <= j < tail2.len() implies full[done_prev.len() as int + 1 + j]
                    == #[trigger] tail2[j] by {
                    assert(tail[j + 1] == tail2[j]);
                    assert(full[done_prev.len() as int + (j + 1)] == tail[j + 1]);
                }
            }
        } else {
            proof {
                assert(tail =~= seq![seq![sub[0]] + tail2[0]] + tail2.drop_first());
                assert(tail[0] == seq![sub[0]] + tail2[0]);
            }
            cur.push(c);
            proof {
                let full = spec_split(s@, sep);
                assert(cur@ + tail2[0] =~= cur_prev + tail[0]);
                assert(full[done@.len() as int] == cur_prev + tail[0]);
                assert forall|j: int| 1 <= j < tail2.len() implies full[done@.len() + j]
                    == #[trigger] tail2[j] by {
                    assert(tail[j] == tail2.drop_first()[j - 1]);
                    assert(tail2.drop_first()[j - 1] == tail2[j]);
                    assert(full[done@.len() + j] == tail[j]);
                }
            }
        }
        pos = pos + 1;
        proof {
            assert(spec_split(s@.subrange(pos as int, n as int), sep) =~= tail2);
        }
    }
    proof {
        assert(s@.subrange(n as int, n as int) =~= Seq::<char>::empty());
        assert(cur@ + Seq::<char>::empty() =~= cur@);
    }
    done.push(cur);
    done
}

/// An octal digit.
pub open spec fn spec_is_octal(c: char) -> bool {
    48 <= c as int <= 55
}

/// The numeric value of one octal digit character.
pub open spec fn spec_octal_val(c: char) -> int {
    c as int - 48
}

/// The kernel writes a mount point's blank, tab, newline and backslash as a
/// backslash followed by three octal digits; this undoes that.  A backslash
/// not followed by three octal digits below 0o400 is kept verbatim.
pub open spec fn spec_unescape(s: Seq<char>) -> Seq<char>
    decreases s.len(),
{
    if s.len() == 0 {
        Seq::empty()
    } else if s[0] == '\\' && s.len() >= 4 && spec_is_octal(s[1]) && spec_is_octal(s[2])
        && spec_is_octal(s[3]) && spec_octal_val(s[1]) < 4 {
        seq![
            (((spec_octal_val(s[1]) * 64 + spec_octal_val(s[2]) * 8 + spec_octal_val(
                s[3],
            )) as u8) as char),
        ] + spec_unescape(s.subrange(4, s.len() as int))
    } else {
        seq![s[0]] + spec_unescape(s.drop_first())
    }
}

fn is_octal_char(c: char) -> (r: bool)
    ensures
        r == spec_is_octal(c),
{
    let code = c as u32;
    48 <= code && code <= 55
}

/// Undoes the kernel's octal escaping; see `spec_unescape`.
pub fn unescape_octal(s: &str) -> (r: String)
    ensures
        r@ == spec_unescape(s@),
{
    let n = s.unicode_len();
    let mut out = String::new();
    let mut pos: usize = 0;
    proof {
        assert(s@.subrange(0, n as int) =~= s@);
    }
    while pos < n
        invariant
            n == s@.len(),
            0 <= pos <= n,
            out@ + spec_unescape(s@.subrange(pos as int, n as int)) == spec_unescape(s@),
        decreases n - pos,
    {
        let ghost sub = s@.subrange(pos as int, n as int);
        let ghost out_prev = out@;
        let c = s.get_char(pos);
        proof {
            assert(sub[0] == c);
        }
        let mut code: u32 = 0;
        let mut is_escape = false;
        if c == '\\' && n - pos > 3 {
            let o1 = s.get_char(pos + 1);
            let o2 = s.get_char(pos + 2);
            let o3 = s.get_char(pos + 3);
            proof {
                assert(sub[1] == o1 && sub[2] == o2 && sub[3] == o3);
            }
            if is_octal_char(o1) && is_octal_char(o2) && is_octal_char(o3) && (o1 as u32) < 52 {
                code = (o1 as u32 - 48) * 64 + (o2 as u32 - 48) * 8 + (o3 as u32 - 48);
                is_escape = true;
            }
        }
        if is_escape {
            out.push((code as u8) as char);
            pos = pos + 4;
            proof {
                assert(sub.subrange(4, sub.len() as int) =~= s@.subrange(pos as int, n as int));
                assert(out@ =~= out_prev + seq![
                    (((spec_octal_val(sub[1]) * 64 + spec_octal_val(sub[2]) * 8 + spec_octal_val(
                        sub[3],
                    )) as u8) as char),
                ]);
                assert(out@ + spec_unescape(s@.subrange(pos as int, n as int)) =~= out_prev
                    + spec_unescape(sub));
            }
        } else {
            out.push(c);
            pos = pos + 1;
            proof {
                assert(sub.drop_first() =~= s@.subrange(pos as int, n as int));
                assert(out@ =~= out_prev + seq![sub[0]]);
                assert(out@ + spec_unescape(s@.subrange(pos as int, n as int)) =~= out_prev
                    + spec_unescape(sub));
            }
        }
    }
    proof {
        assert(s@.subrange(n as int, n as int) =~= Seq::<char>::empty());
        assert(out@ + Seq::<char>::empty() =~= out@);
    }
    out
}

/// Mount is read-only.
pub const MS_RDONLY: u64 = 0x1;

/// Setuid bits are ignored under the mount.
pub const MS_NOSUID: u64 = 0x2;

/// Device nodes are dead under the mount.
pub const MS_NODEV: u64 = 0x4;

/// Nothing under the mount can be executed.
pub const MS_NOEXEC: u64 = 0x8;

/// Access times are not updated.
pub const MS_NOATIME: u64 = 0x400;

/// Directory access times are not updated.
pub const MS_NODIRATIME: u64 = 0x800;

/// Access times are updated relative to modification.
pub const MS_RELATIME: u64 = 0x20_0000;

/// The flag bit one mount option of the table's option field stands for;
/// options that carry no flag bit, `rw` among them, count as zero.
pub open spec fn spec_option_flag(o: Seq<char>) -> u64 {
    if o == "ro"@ {
        MS_RDONLY
    } else if o == "nosuid"@ {
        MS_NOSUID
    } else if o == "nodev"@ {
        MS_NODEV
    } else if o == "noexec"@ {
        MS_NOEXEC
    } else if o == "noatime"@ {
        MS_NOATIME
    } else if o == "nodiratime"@ {
        MS_NODIRATIME
    } else if o == "relatime"@ {
        MS_RELATIME
    } else {
        0
    }
}

/// The flag bits of a whole option list.
pub open spec fn spec_options_flags(os: Seq<Seq<char>>) -> u64
    decreases os.len(),
{
    if os.len() == 0 {
        0
    } else {
        spec_option_flag(os[0]) | spec_options_flags(os.drop_first())
    }
}

proof fn lemma_or_zero(a: u64)
    ensures
        a | 0u64 == a,
        0u64 | a == a,
{
    assert(a | 0u64 == a) by (bit_vector);
    assert(0u64 | a == a) by (bit_vector);
}

proof fn lemma_or_assoc(a: u64, b: u64, c: u64)
    ensures
        (a | b) | c == a | (b | c),
{
    assert((a | b) | c == a | (b | c)) by (bit_vector);
}

fn option_flag(o: &str) -> (r: u64)
    ensures
        r == spec_option_flag(o@),
{
    if str_eq(o, "ro") {
        MS_RDONLY
    } else if str_eq(o, "nosuid") {
        MS_NOSUID
    } else if str_eq(o, "nodev") {
        MS_NODEV
    } else if str_eq(o, "noexec") {
        MS_NOEXEC
    } else if str_eq(o, "noatime") {
        MS_NOATIME
    } else if str_eq(o, "nodiratime") {
        MS_NODIRATIME
    } else if str_eq(o, "relatime") {
        MS_RELATIME
    } else {
        0
    }
}

/// Reads the flag bits out of a comma-separated option field.
pub fn parse_options(options: &str) -> (r: u64)
    ensures
        r == spec_options_flags(spec_split(options@, ',')),
{
    let parts = split_char(options, ',');
    let ghost gops = spec_split(options@, ',');
    let mut flags: u64 = 0;
    let mut idx: usize = 0;
    proof {
        assert(gops.skip(0) =~= gops);
        lemma_or_zero(spec_options_flags(gops));
    }
    while idx < parts.len()
        invariant
            parts@.len() == gops.len(),
            forall|i: int| 0 <= i < parts@.len() ==> (#[trigger] parts@[i])@ == gops[i],
            0 <= idx <= parts@.len(),
            flags | spec_options_flags(gops.skip(idx as int)) == spec_options_flags(gops),
        decreases parts@.len() - idx,
    {
        let f = option_flag(parts[idx].as_str());
        proof {
            let rest = gops.skip(idx as int);
            assert(rest[0] == gops[idx as int]);
            assert(rest.drop_first() =~= gops.skip(idx + 1));
            lemma_or_assoc(flags, f, spec_options_flags(gops.skip(idx + 1)));
        }
        flags = flags | f;
        idx = idx + 1;
    }
    proof {
        assert(gops.skip(gops.len() as int) =~= Seq::<Seq<char>>::empty());
        lemma_or_zero(flags);
    }
    flags
}

/// The position of the first single-dash field at or after `i`: the
/// separator between a mount's optional fields and its filesystem type.
pub open spec fn spec_sep_index(fields: Seq<Seq<char>>, i: int) -> int
    decreases fields.len() - i,
{
    if i >= fields.len() {
        fields.len() as int
    } else if fields[i] == "-"@ {
        i
    } else {
        spec_sep_index(fields, i + 1)
    }
}

proof fn lemma_sep_index_skip(fields: Seq<Seq<char>>, a: int, k: int)
    requires
        0 <= a <= k <= fields.len(),
        forall|j: int| a <= j < k ==> (#[trigger] fields[j]) != "-"@,
    ensures
        spec_sep_index(fields, a) == spec_sep_index(fields, k),
    decreases k - a,
{
    if a < k {
        lemma_sep_index_skip(fields, a + 1, k);
    }
}

/// The abstract value of one mount table entry, as far as the sandbox
/// construction reads it.
pub struct MountEntryModel {
    pub mount_point: Seq<char>,
    pub fstype: Seq<char>,
    pub flags: u64,
}

/// One mount table entry: where the mount sits, its filesystem type, and
/// the flag bits of its options.
#[derive(Debug, PartialEq, Eq)]
pub struct MountEntry {
    pub mount_point: String,
    pub fstype: String,
    pub flags: u64,
}

impl View for MountEntry {
    type V = MountEntryModel;

    open spec fn view(&self) -> MountEntryModel {
        MountEntryModel {
            mount_point: self.mount_point@,
            fstype: self.fstype@,
            flags: self.flags,
        }
    }
}

impl Clone for MountEntry {
    fn clone(&self) -> (r: Self)
        ensures
            r == *self,
    {
        MountEntry {
            mount_point: self.mount_point.clone(),
            fstype: self.fstype.clone(),
            flags: self.flags,
        }
    }
}

/// One line of the mount table, read as far as the construction needs it:
/// at least seven space-separated fields, the mount point at position four
/// (octal-unescaped), the option field at position five, the filesystem
/// type right after the first dash field at or past position six.
pub open spec fn spec_parse_entry(line: Seq<char>) -> Option<MountEntryModel> {
    let fields = spec_split(line, ' ');
    let k = spec_sep_index(fields, 6);
    if fields.len() >= 7 && k + 1 < fields.len() {
        Some(
            MountEntryModel {
                mount_point: spec_unescape(fields[4]),
                fstype: fields[k + 1],
                flags: spec_options_flags(spec_split(fields[5], ',')),
            },
        )
    } else {
        None
    }
}

/// Parses one mount table line; see `spec_parse_entry`.
pub fn parse_mount_entry(line: &str) -> (r: Option<MountEntry>)
    ensures
        (r is Some) == (spec_parse_entry(line@) is Some),
        r matches Some(e) ==> (spec_parse_entry(line@) matches Some(m) && e@.mount_point
            == m.mount_point && e@.fstype == m.fstype && e@.flags == m.flags),
{
    let fields = split_char(line, ' ');
    let ghost gfields = spec_split(line@, ' ');
    if fields.len() < 7 {
        return None;
    }
    let mut k: usize = 6;
    while k < fields.len() && !str_eq(fields[k].as_str(), "-")
        invariant
            fields@.len() == gfields.len(),
            forall|i: int| 0 <= i < fields@.len() ==> (#[trigger] fields@[i])@ == gfields[i],
            6 <= k <= fields@.len(),
            forall|j: int| 6 <= j < k ==> (#[trigger] gfields[j]) != "-"@,
        decreases fields@.len() - k,
    {
        k = k + 1;
    }
    proof {
        lemma_sep_index_skip(gfields, 6, k as int);
    }
    if k < fields.len() && k + 1 < fields.len() {
        let mount_point = unescape_octal(fields[4].as_str());
        let fstype = fields[k + 1].clone();
        let flags = parse_options(fields[5].as_str());
        Some(MountEntry { mount_point, fstype, flags })
    } else {
        proof {
            if k < fields.len() {
                assert(spec_sep_index(gfields, k as int) == k);
            }
        }
        None
    }
}

/// The whole mount table: every non-empty line parsed, in order; a single
/// unreadable line spoils the table.
pub open spec fn spec_parse_lines(lines: Seq<Seq<char>>) -> Option<Seq<MountEntryModel>>
    decreases lines.len(),
{
    if lines.len() == 0 {
        Some(Seq::empty())
    } else {
        let rest = spec_parse_lines(lines.drop_first());
        if lines[0].len() == 0 {
            rest
        } else {
            match (spec_parse_entry(lines[0]), rest) {
                (Some(e), Some(v)) => Some(seq![e] + v),
                _ => None,
            }
        }
    }
}

/// The mount table read out of one text; see `spec_parse_lines`.
pub open spec fn spec_parse_mountinfo(text: Seq<char>) -> Option<Seq<MountEntryModel>> {
    spec_parse_lines(spec_split(text, '\n'))
}

/// Parses the mount table text; see `spec_parse_mountinfo`.
pub fn parse_mountinfo(text: &str) -> (r: Result<Vec<MountEntry>, SandboxError>)
    ensures
        spec_parse_mountinfo(text@) is None ==> r == Err::<Vec<MountEntry>, SandboxError>(
            SandboxError::MalformedMountInfo,
        ),
        spec_parse_mountinfo(text@) matches Some(v) ==> (r matches Ok(es) && es@.len() == v.len()
            && (forall|i: int| 0 <= i < v.len() ==> (#[trigger] es@[i])@ == v[i])),
{
    let lines = split_char(text, '\n');
    let ghost glines = spec_split(text@, '\n');
    let mut out: Vec<MountEntry> = Vec::new();
    let mut idx: usize = 0;
    proof {
        assert(glines.skip(0) =~= glines);
    }
    while idx < lines.len()
        invariant
            glines == spec_split(text@, '\n'),
            lines@.len() == glines.len(),
            forall|i: int| 0 <= i < lines@.len() ==> (#[trigger] lines@[i])@ == glines[i],
            0 <= idx <= lines@.len(),
            ({
                let whole = spec_parse_lines(glines);
                let rest = spec_parse_lines(glines.skip(idx as int));
                &&& (rest is None ==> whole is None)
                &&& (rest matches Some(v) ==> (whole matches Some(w) && w.len() == out@.len()
                    + v.len() && (forall|i: int|
                    0 <= i < out@.len() ==> w[i] == (#[trigger] out@[i])@) && (forall|j: int|
                    0 <= j < v.len() ==> w[out@.len() + j] == #[trigger] v[j])))
            }),
        decreases lines@.len() - idx,
    {
        let ghost grest = glines.skip(idx as int);
        proof {
            assert(grest.len() > 0);
            assert(grest[0] == glines[idx as int]);
            assert(grest.drop_first() =~= glines.skip(idx + 1));
        }
        let line = &lines[idx];
        if line.as_str().unicode_len() == 0 {
            proof {
                assert(glines[idx as int].len() == 0);
                assert(spec_parse_lines(grest) == spec_parse_lines(glines.skip(idx + 1)));
            }
            idx = idx + 1;
            continue ;
        }
        proof {
            assert(glines[idx as int].len() > 0);
        }
        match parse_mount_entry(line.as_str()) {
            Some(entry) => {
                let ghost gentry = entry@;
                let ghost out_prev = out@;
                out.push(entry);
                proof {
                    match spec_parse_entry(grest[0]) {
                        Some(m) => {
                            assert(gentry.mount_point == m.mount_point);
                            assert(gentry == m);
                        },
                        None => {
                            assert(false);
                        },
                    }
                    match spec_parse_lines(glines.skip(idx + 1)) {
                        Some(v2) => {
                            let v = seq![gentry] + v2;
                            assert(spec_parse_lines(grest) == Some(v));
                            match spec_parse_lines(glines) {
                                Some(w) => {
                                    assert(w.len() == out_prev.len() + v.len());
                                    assert forall|i: int| 0 <= i < out@.len() implies w[i] == (
                                    #[trigger] out@[i])@ by {
                                        if i < out_prev.len() {
                                        } else {
                                            assert(w[out_prev.len() as int + 0] == v[0]);
                                            assert(v[0] == gentry);
                                        }
                                    }
                                    assert forall|j: int| 0 <= j < v2.len() implies w[out@.len()
                                        + j] == #[trigger] v2[j] by {
                                        assert(w[out_prev.len() as int + (j + 1)] == v[j + 1]);
                                        assert(v[j + 1] == v2[j]);
                                    }
                                },
                                None => {
                                    assert(false);
                                },
                            }
                        },
                        None => {
                            assert(spec_parse_lines(grest) is None);
                        },
                    }
                }
                idx = idx + 1;
            },
            None => {
                proof {
                    assert(spec_parse_lines(grest) is None);
                }
                return Err(SandboxError::MalformedMountInfo);
            },
        }
    }
    proof {
        assert(glines.skip(glines.len() as int) =~= Seq::<Seq<char>>::empty());
    }
    Ok(out)
}

/// The entries that sit at or under one destination path.
pub open spec fn spec_under(dest: Seq<char>) -> spec_fn(MountEntry) -> bool {
    |e: MountEntry| spec_path_starts_with(e.mount_point@, dest)
}

/// Keeps the entries whose mount point sits at or under the destination,
/// in order: the subtree a fresh bind mount has to be re-flagged over.
pub fn mounts_under(entries: Vec<MountEntry>, dest: &str) -> (r: Vec<MountEntry>)
    ensures
        r@ == entries@.filter(spec_under(dest@)),
{
    let mut out: Vec<MountEntry> = Vec::new();
    let mut idx: usize = 0;
    proof {
        assert(entries@.subrange(0, 0) =~= Seq::<MountEntry>::empty());
        reveal(Seq::filter);
    }
    while idx < entries.len()
        invariant
            0 <= idx <= entries@.len(),
            out@ == entries@.subrange(0, idx as int).filter(spec_under(dest@)),
        decreases entries@.len() - idx,
    {
        let entry = entries[idx].clone();
        proof {
            reveal(Seq::filter);
            assert(entries@.subrange(0, idx + 1).drop_last() =~= entries@.subrange(0, idx as int));
            assert(entries@.subrange(0, idx + 1).last() == entries@[idx as int]);
        }
        if path_starts_with(entry.mount_point.as_str(), dest) {
            out.push(entry);
        }
        idx = idx + 1;
    }
    proof {
        assert(entries@.subrange(0, entries@.len() as int) =~= entries@);
    }
    out
}

/// The flags a bound subtree is remounted with: whatever the subtree's
/// root already carries, joined with no-setuid, with no-device unless
/// devices are allowed, and read-only unless the mapping is writable.
pub open spec fn spec_remount_flags(current: u64, writable: bool, allow_devices: bool) -> u64 {
    (current | MS_NOSUID) | (if !allow_devices {
        MS_NODEV
    } else {
        0
    }) | (if !writable {
        MS_RDONLY
    } else {
        0
    })
}

/// Computes the flags a bound subtree is remounted with; see
/// `spec_remount_flags`.
pub fn remount_flags(current: u64, writable: bool, allow_devices: bool) -> (r: u64)
    ensures
        r == spec_remount_flags(current, writable, allow_devices),
{
    let mut flags: u64 = current | MS_NOSUID;
    proof {
        lemma_or_zero(flags);
        lemma_or_zero(flags | MS_NODEV);
    }
    if !allow_devices {
        flags = flags | MS_NODEV;
    }
    proof {
        lemma_or_zero(flags);
    }
    if !writable {
        flags = flags | MS_RDONLY;
    }
    flags
}

/// One remount to carry out: impose `flags` on the mount at `mount_point`.
#[derive(Debug, PartialEq, Eq)]
pub struct RemountStep {
    pub mount_point: String,
    pub flags: u64,
}

/// Plans the remounts after one bind mount, over the filtered mount table
/// subtree whose first entry is the bound destination itself.  A procfs
/// destination is refused outright when sysctl access is denied.  When the
/// goal flags differ from what the subtree root carries, every entry is
/// remounted with them; the goal is computed from the root's flags
/// throughout — a submount's own flags are not consulted, so a subtree
/// whose root already carries the goal is left entirely alone.
pub fn plan_bind_remounts(
    entries: &Vec<MountEntry>,
    writable: bool,
    allow_devices: bool,
    allow_sysctl: bool,
) -> (r: Result<Vec<RemountStep>, SandboxError>)
    ensures
        entries@.len() == 0 ==> r == Err::<Vec<RemountStep>, SandboxError>(
            SandboxError::MalformedMountInfo,
        ),
        entries@.len() > 0 && entries@[0]@.fstype == "proc"@ && !allow_sysctl ==> r == Err::<
            Vec<RemountStep>,
            SandboxError,
        >(SandboxError::ProcfsNotPermitted),
        entries@.len() > 0 && !(entries@[0]@.fstype == "proc"@ && !allow_sysctl) ==> (r matches
            Ok(steps) && ({
            let goal = spec_remount_flags(entries@[0]@.flags, writable, allow_devices);
            if goal == entries@[0]@.flags {
                steps@.len() == 0
            } else {
                steps@.len() == entries@.len() && (forall|i: int|
                    0 <= i < steps@.len() ==> (#[trigger] steps@[i]).mount_point@
                        == entries@[i]@.mount_point && steps@[i].flags == goal)
            }
        })),
{
    if entries.len() == 0 {
        return Err(SandboxError::MalformedMountInfo);
    }
    if str_eq(entries[0].fstype.as_str(), "proc") && !allow_sysctl {
        return Err(SandboxError::ProcfsNotPermitted);
    }
    let goal = remount_flags(entries[0].flags, writable, allow_devices);
    let mut steps: Vec<RemountStep> = Vec::new();
    if goal == entries[0].flags {
        return Ok(steps);
    }
    let mut idx: usize = 0;
    while idx < entries.len()
        invariant
            0 <= idx <= entries@.len(),
            steps@.len() == idx,
            forall|i: int| 0 <= i < idx ==> (#[trigger] steps@[i]).mount_point@
                == entries@[i]@.mount_point && steps@[i].flags == goal,
        decreases entries@.len() - idx,
    {
        steps.push(
            RemountStep { mount_point: entries[idx].mount_point.clone(), flags: goal },
        );
        idx = idx + 1;
    }
    Ok(steps)
}

} // verus!
