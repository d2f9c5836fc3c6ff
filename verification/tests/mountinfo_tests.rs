use bastille::mountinfo::{
    mounts_under, parse_mount_entry, parse_mountinfo, plan_bind_remounts, remount_flags,
    split_char, unescape_octal, MountEntry, MS_NOATIME, MS_NODEV, MS_NOSUID, MS_RDONLY,
};
use bastille::SandboxError;

#[test]
fn splitting_keeps_empty_pieces() {
    let pieces = split_char("a b  c", ' ');
    assert_eq!(pieces, vec!["a", "b", "", "c"]);
    assert_eq!(split_char("", ' '), vec![""]);
    assert_eq!(split_char("x", ' '), vec!["x"]);
    assert_eq!(split_char(" x ", ' '), vec!["", "x", ""]);
}

#[test]
fn octal_escapes_are_undone() {
    assert_eq!(unescape_octal("/mnt/a\\040b"), "/mnt/a b");
    assert_eq!(unescape_octal("\\011\\012\\134"), "\t\n\\");
    // A lone backslash, or one without three octal digits, stays verbatim.
    assert_eq!(unescape_octal("a\\zb"), "a\\zb");
    assert_eq!(unescape_octal("tail\\"), "tail\\");
}

#[test]
fn a_typical_entry_parses() {
    let line = "36 35 98:0 /mnt1 /mnt2 rw,noatime master:1 - ext3 /dev/root rw,errors=continue";
    let e = parse_mount_entry(line).unwrap();
    assert_eq!(e.mount_point, "/mnt2");
    assert_eq!(e.fstype, "ext3");
    assert_eq!(e.flags, MS_NOATIME);
}

#[test]
fn entry_mount_point_is_unescaped() {
    let line = "1 1 0:1 / /mnt/a\\040b ro - tmpfs tmpfs rw";
    let e = parse_mount_entry(line).unwrap();
    assert_eq!(e.mount_point, "/mnt/a b");
    assert_eq!(e.flags, MS_RDONLY);
}

#[test]
fn option_flags_accumulate() {
    let line = "1 1 0:1 / / ro,nosuid,nodev shared:1 - proc proc rw";
    let e = parse_mount_entry(line).unwrap();
    assert_eq!(e.flags, MS_RDONLY | MS_NOSUID | MS_NODEV);
    assert_eq!(e.fstype, "proc");
}

#[test]
fn short_or_separatorless_lines_are_refused() {
    assert!(parse_mount_entry("1 2 3").is_none());
    assert!(parse_mount_entry("1 1 0:1 / / rw shared:1 proc proc rw").is_none());
    assert!(parse_mount_entry("1 1 0:1 / / rw -").is_none());
}

#[test]
fn a_whole_table_parses_line_by_line() {
    let text = "1 1 0:1 / / rw - tmpfs tmpfs rw\n2 1 0:2 / /proc rw - proc proc rw\n";
    let entries = parse_mountinfo(text).unwrap();
    assert_eq!(entries.len(), 2);
    assert_eq!(entries[0].mount_point, "/");
    assert_eq!(entries[1].mount_point, "/proc");
    assert_eq!(entries[1].fstype, "proc");
}

#[test]
fn one_bad_line_spoils_the_table() {
    let text = "1 1 0:1 / / rw - tmpfs tmpfs rw\nnot a mount line\n";
    assert_eq!(parse_mountinfo(text), Err(SandboxError::MalformedMountInfo));
}

fn entry(mount_point: &str, fstype: &str, flags: u64) -> MountEntry {
    MountEntry {
        mount_point: mount_point.to_string(),
        fstype: fstype.to_string(),
        flags,
    }
}

#[test]
fn filtering_keeps_the_subtree_only() {
    let entries = vec![
        entry("/new_root/usr", "ext4", 0),
        entry("/new_root/usr/local", "ext4", 0),
        entry("/new_root/usr2", "ext4", 0),
        entry("/other", "ext4", 0),
    ];
    let under = mounts_under(entries, "/new_root/usr");
    assert_eq!(under.len(), 2);
    assert_eq!(under[0].mount_point, "/new_root/usr");
    assert_eq!(under[1].mount_point, "/new_root/usr/local");
}

#[test]
fn remount_flags_add_the_policy_bits() {
    assert_eq!(remount_flags(0, true, true), MS_NOSUID);
    assert_eq!(remount_flags(0, false, true), MS_NOSUID | MS_RDONLY);
    assert_eq!(remount_flags(0, true, false), MS_NOSUID | MS_NODEV);
    assert_eq!(
        remount_flags(MS_NOATIME, false, false),
        MS_NOATIME | MS_NOSUID | MS_NODEV | MS_RDONLY
    );
}

#[test]
fn procfs_refused_without_sysctl() {
    let entries = vec![entry("/new_root/proc", "proc", 0)];
    assert_eq!(
        plan_bind_remounts(&entries, true, true, false),
        Err(SandboxError::ProcfsNotPermitted)
    );
    // With sysctl allowed, the same subtree is planned normally.
    assert!(plan_bind_remounts(&entries, true, true, true).is_ok());
}

#[test]
fn unchanged_flags_need_no_remount() {
    let entries = vec![
        entry("/new_root/usr", "ext4", MS_NOSUID | MS_NODEV | MS_RDONLY),
        entry("/new_root/usr/local", "ext4", 0),
    ];
    let steps = plan_bind_remounts(&entries, false, false, true).unwrap();
    assert!(steps.is_empty());
}

#[test]
fn changed_flags_remount_the_whole_subtree() {
    let entries = vec![
        entry("/new_root/usr", "ext4", 0),
        entry("/new_root/usr/local", "ext4", 0),
    ];
    let steps = plan_bind_remounts(&entries, false, false, true).unwrap();
    assert_eq!(steps.len(), 2);
    assert_eq!(steps[0].mount_point, "/new_root/usr");
    assert_eq!(steps[0].flags, MS_NOSUID | MS_NODEV | MS_RDONLY);
    assert_eq!(steps[1].mount_point, "/new_root/usr/local");
    assert_eq!(steps[1].flags, MS_NOSUID | MS_NODEV | MS_RDONLY);
}

#[test]
fn empty_subtree_is_malformed() {
    let entries: Vec<MountEntry> = Vec::new();
    assert_eq!(
        plan_bind_remounts(&entries, true, true, true),
        Err(SandboxError::MalformedMountInfo)
    );
}
