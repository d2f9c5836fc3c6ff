use bastille::sandboxfs::{
    block_until_mounted, expected_reply, interpret_liveness_probe, json_escape, mount_message,
    sync_message, to_sandboxfs_mappings, unmount_message, SiblingProbe,
};
use bastille::{Mapping, Mappings, SandboxError};

#[test]
fn paths_are_json_escaped() {
    assert_eq!(json_escape("/plain/path"), "/plain/path");
    assert_eq!(json_escape("/with\"quote"), "/with\\\"quote");
    assert_eq!(json_escape("back\\slash"), "back\\\\slash");
}

#[test]
fn mount_request_lists_every_mapping() {
    let mappings = vec![
        Mapping::from_parts("/usr".to_string(), "/usr".to_string(), false).unwrap(),
        Mapping::from_parts("/dev".to_string(), "/dev".to_string(), true).unwrap(),
    ];
    assert_eq!(
        mount_message(&mappings),
        "[{\"Map\":{\"Mapping\":\"/usr\",\"Target\":\"/usr\",\"Writable\":false}},{\"Map\":{\"Mapping\":\"/dev\",\"Target\":\"/dev\",\"Writable\":true}}]\n"
    );
}

#[test]
fn empty_mount_request_is_a_bare_list() {
    let mappings: Vec<Mapping> = Vec::new();
    assert_eq!(mount_message(&mappings), "[]\n");
}

#[test]
fn unmount_request_lists_every_path() {
    let paths = vec!["/usr".to_string(), "/dev".to_string()];
    assert_eq!(
        unmount_message(&paths),
        "[{\"Unmap\":\"/usr\"},{\"Unmap\":\"/dev\"}]\n"
    );
}

#[test]
fn startup_exchange_bodies() {
    assert_eq!(sync_message(), "[]\n\n");
    assert_eq!(expected_reply(), "Done\n");
}

#[test]
fn only_the_acknowledgement_counts_as_mounted() {
    assert_eq!(block_until_mounted("Done\n"), Ok(()));
    assert!(matches!(
        block_until_mounted("Error: no\n"),
        Err(SandboxError::InvalidReply(r)) if r == "Error: no\n"
    ));
    assert!(block_until_mounted("Done").is_err());
}

#[test]
fn overlay_mappings_are_resolved() {
    let mut ms = Mappings::default();
    ms.push(Mapping::from_parts("/x".to_string(), "/proc/self".to_string(), false).unwrap());
    let resolved = to_sandboxfs_mappings(&ms).unwrap();
    assert_eq!(resolved.len(), 1);
    assert_eq!(resolved[0].sandbox_path(), "/x");
    assert_ne!(resolved[0].host_path(), "/proc/self");
    assert!(resolved[0].host_path().starts_with('/'));
}

#[test]
fn liveness_probe_interpretation() {
    assert_eq!(interpret_liveness_probe(false, 0), SiblingProbe::Alive);
    assert_eq!(interpret_liveness_probe(true, 1), SiblingProbe::Alive);
    assert_eq!(interpret_liveness_probe(true, 3), SiblingProbe::Exited);
    assert_eq!(interpret_liveness_probe(true, 5), SiblingProbe::Failed);
}
