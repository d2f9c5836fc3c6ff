use bastille::{ErrorKind, Mapping, Mappings, SandboxError};

#[test]
fn accepted_mapping_keeps_its_parts() {
    let m = Mapping::from_parts("/usr".to_string(), "/usr".to_string(), false).unwrap();
    assert_eq!(m.sandbox_path(), "/usr");
    assert_eq!(m.host_path(), "/usr");
    assert!(!m.is_writable());
}

#[test]
fn accepted_mapping_sandbox_path_is_absolute() {
    let cases = ["/", "/usr", "/usr/lib/x86_64", "/a/./b", "/dev/foo"];
    for sandbox in cases {
        let m = Mapping::from_parts(sandbox.to_string(), "/host".to_string(), true).unwrap();
        assert!(m.sandbox_path().starts_with('/'));
    }
}

#[test]
fn relative_sandbox_path_rejected_not_absolute() {
    let err = Mapping::from_parts("foo/bar".to_string(), "/host".to_string(), false).unwrap_err();
    assert!(matches!(err.0, ErrorKind::NotAbsolute(ref p) if p == "foo/bar"));
    assert_eq!(err.message(), "mount path `foo/bar` is not absolute");
}

#[test]
fn double_root_rejected_not_normalized() {
    let err = Mapping::from_parts("//host".to_string(), "/x".to_string(), false).unwrap_err();
    assert!(matches!(err.0, ErrorKind::NotNormalized(ref p) if p == "//host"));
    assert_eq!(err.message(), "host path `//host` is not normalized");
}

#[test]
fn parent_component_rejected_not_normalized() {
    let err = Mapping::from_parts("/a/../b".to_string(), "/x".to_string(), false).unwrap_err();
    assert!(matches!(err.0, ErrorKind::NotNormalized(_)));
}

#[test]
fn rejection_reports_exactly_the_first_failing_rule() {
    // Not absolute wins even when the path is also not normalized.
    let err = Mapping::from_parts("a/../b".to_string(), "/x".to_string(), false).unwrap_err();
    assert!(matches!(err.0, ErrorKind::NotAbsolute(_)));
    // An absolute path can only be rejected as not normalized.
    let err = Mapping::from_parts("/..".to_string(), "/x".to_string(), false).unwrap_err();
    assert!(matches!(err.0, ErrorKind::NotNormalized(_)));
}

#[test]
fn bare_root_accepted() {
    assert!(Mapping::from_parts("/".to_string(), "/host".to_string(), true).is_ok());
}

#[test]
fn dot_components_pass_validation() {
    assert!(Mapping::from_parts("/a/./b".to_string(), "/x".to_string(), false).is_ok());
}

#[test]
fn clear_then_resolve_yields_empty_sequence() {
    let mut ms = Mappings::default();
    ms.push(Mapping::from_parts("/usr".to_string(), "/usr".to_string(), false).unwrap());
    ms.push(Mapping::from_parts("/dev".to_string(), "/dev".to_string(), true).unwrap());
    ms.clear();
    let resolved = ms.resolve_symlinks().unwrap();
    assert!(resolved.is_empty());
}

#[test]
fn resolve_preserves_sandbox_path_order_and_writability() {
    let mut ms = Mappings::default();
    ms.push(Mapping::from_parts("/usr".to_string(), "/usr".to_string(), false).unwrap());
    ms.push(Mapping::from_parts("/dev".to_string(), "/dev".to_string(), true).unwrap());
    let resolved = ms.resolve_symlinks().unwrap();
    assert_eq!(resolved.len(), 2);
    assert_eq!(resolved[0].sandbox_path(), "/usr");
    assert!(!resolved[0].is_writable());
    assert_eq!(resolved[1].sandbox_path(), "/dev");
    assert!(resolved[1].is_writable());
    for m in &resolved {
        assert!(m.host_path().starts_with('/'));
    }
}

#[test]
fn resolve_expands_symbolic_links() {
    // `/proc/self` is a symbolic link to the caller's own pid directory, so
    // resolution must hand back a different, still absolute, path.
    let mut ms = Mappings::default();
    ms.push(Mapping::from_parts("/x".to_string(), "/proc/self".to_string(), false).unwrap());
    let resolved = ms.resolve_symlinks().unwrap();
    assert_eq!(resolved.len(), 1);
    let host = resolved[0].host_path();
    assert!(host.starts_with("/proc/"));
    assert_ne!(host, "/proc/self");
}

#[test]
fn resolve_fails_on_missing_host_path() {
    let mut ms = Mappings::default();
    ms.push(
        Mapping::from_parts(
            "/x".to_string(),
            "/this/path/does/not/exist/anywhere".to_string(),
            false,
        )
        .unwrap(),
    );
    assert!(matches!(ms.resolve_symlinks(), Err(SandboxError::Io(_))));
}

#[test]
fn extend_appends_in_order() {
    let mut ms = Mappings::default();
    ms.push(Mapping::from_parts("/a".to_string(), "/1".to_string(), false).unwrap());
    ms.extend(vec![
        Mapping::from_parts("/b".to_string(), "/2".to_string(), false).unwrap(),
        Mapping::from_parts("/c".to_string(), "/3".to_string(), true).unwrap(),
    ]);
    assert_eq!(ms.0.len(), 3);
    assert_eq!(ms.0[1].sandbox_path(), "/b");
    assert_eq!(ms.0[2].sandbox_path(), "/c");
}

#[test]
fn device_file_mapping_accepted_and_resolved() {
    let mut ms = Mappings::default();
    ms.push(Mapping::from_parts("/dev/foo".to_string(), "/dev/null".to_string(), true).unwrap());
    let resolved = ms.resolve_symlinks().unwrap();
    assert_eq!(resolved[0].host_path(), "/dev/null");
    assert_eq!(resolved[0].sandbox_path(), "/dev/foo");
}
