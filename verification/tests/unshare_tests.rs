use bastille::unshare::{
    check_max_user_namespaces, check_user_ns_support, clone_flags, mapping_mount_paths,
    new_root_target, CLONE_NEWNET, CLONE_NEWNS, CLONE_NEWPID, CLONE_NEWUSER, SIGCHLD,
};
use bastille::{Mapping, SandboxError};

#[test]
fn fully_restricted_clone_joins_every_namespace() {
    let flags = clone_flags(false, false);
    assert_eq!(flags, SIGCHLD | CLONE_NEWNS | CLONE_NEWUSER | CLONE_NEWPID | CLONE_NEWNET);
    assert_eq!(flags, 0x7002_0011);
}

#[test]
fn allow_network_skips_the_network_namespace() {
    let flags = clone_flags(false, true);
    assert_eq!(flags & CLONE_NEWNET, 0);
    assert_ne!(flags & CLONE_NEWPID, 0);
    assert_eq!(flags, 0x3002_0011);
}

#[test]
fn allow_sysctl_skips_the_pid_namespace() {
    let flags = clone_flags(true, true);
    assert_eq!(flags & CLONE_NEWPID, 0);
    assert_eq!(flags & CLONE_NEWNET, 0);
    assert_eq!(flags, 0x1002_0011);
    let flags = clone_flags(true, false);
    assert_eq!(flags & CLONE_NEWPID, 0);
    assert_ne!(flags & CLONE_NEWNET, 0);
}

#[test]
fn missing_user_namespace_file_refused() {
    assert_eq!(
        check_user_ns_support(false),
        Err(SandboxError::UserNamespacesUnsupported)
    );
    assert_eq!(check_user_ns_support(true), Ok(()));
}

#[test]
fn zero_max_user_namespaces_refused_before_clone() {
    assert_eq!(
        check_max_user_namespaces("0\n"),
        Err(SandboxError::UserNamespacesDisabled)
    );
}

#[test]
fn positive_max_user_namespaces_accepted() {
    assert_eq!(check_max_user_namespaces("65536\n"), Ok(()));
    assert_eq!(check_max_user_namespaces("  1 "), Ok(()));
    assert_eq!(check_max_user_namespaces("-1\n"), Ok(()));
}

#[test]
fn unreadable_max_user_namespaces_is_an_error() {
    assert_eq!(
        check_max_user_namespaces("lots\n"),
        Err(SandboxError::InvalidNumber)
    );
    assert_eq!(check_max_user_namespaces(""), Err(SandboxError::InvalidNumber));
    assert_eq!(
        check_max_user_namespaces("99999999999999999999"),
        Err(SandboxError::InvalidNumber)
    );
}

#[test]
fn mapping_paths_are_staged_under_both_roots() {
    let m = Mapping::from_parts("/usr".to_string(), "/usr/local".to_string(), false).unwrap();
    let paths = mapping_mount_paths(&m).unwrap();
    assert_eq!(paths.source, "/old_root/usr/local");
    assert_eq!(paths.dest, "/new_root/usr");
}

#[test]
fn relative_host_path_refused_when_staging() {
    let m = Mapping::from_parts("/usr".to_string(), "usr".to_string(), false).unwrap();
    assert!(matches!(
        mapping_mount_paths(&m),
        Err(SandboxError::NotRooted(p)) if p == "usr"
    ));
}

#[test]
fn link_and_directory_targets_are_staged_under_the_new_root() {
    assert_eq!(new_root_target("/lib64").unwrap(), "/new_root/lib64");
    assert!(matches!(
        new_root_target("lib64"),
        Err(SandboxError::NotRooted(p)) if p == "lib64"
    ));
}
