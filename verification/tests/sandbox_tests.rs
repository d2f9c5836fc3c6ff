use bastille::{Mapping, Sandbox};

#[test]
fn defaults_are_fully_restricted() {
    let s = Sandbox::new();
    assert!(s.get_mappings().0.is_empty());
    assert!(s.get_soft_links().is_empty());
    assert!(s.get_directories().is_empty());
    assert_eq!(s.get_uid(), None);
    assert_eq!(s.get_gid(), None);
    assert!(!s.devices_allowed());
    assert!(!s.local_sockets_allowed());
    assert!(!s.network_allowed());
    assert!(!s.sysctl_allowed());
}

#[test]
fn setters_chain_and_record_values() {
    let mut s = Sandbox::new();
    s.uid(1000)
        .gid(1000)
        .allow_devices(true)
        .allow_local_sockets(true)
        .allow_network(true)
        .allow_sysctl(true);
    assert_eq!(s.get_uid(), Some(1000));
    assert_eq!(s.get_gid(), Some(1000));
    assert!(s.devices_allowed());
    assert!(s.local_sockets_allowed());
    assert!(s.network_allowed());
    assert!(s.sysctl_allowed());
}

fn mapping(sandbox: &str) -> Mapping {
    Mapping::from_parts(sandbox.to_string(), "/host".to_string(), false).unwrap()
}

#[test]
fn setter_order_does_not_matter() {
    let mut a = Sandbox::new();
    a.uid(7).allow_network(true).gid(8).allow_sysctl(false);
    let mut b = Sandbox::new();
    b.allow_sysctl(false).gid(8).allow_network(true).uid(7);
    assert_eq!(a.get_uid(), b.get_uid());
    assert_eq!(a.get_gid(), b.get_gid());
    assert_eq!(a.network_allowed(), b.network_allowed());
    assert_eq!(a.sysctl_allowed(), b.sysctl_allowed());
    assert_eq!(a.devices_allowed(), b.devices_allowed());
    assert_eq!(a.local_sockets_allowed(), b.local_sockets_allowed());
}

#[test]
fn repeating_a_setter_with_the_same_value_changes_nothing() {
    let mut a = Sandbox::new();
    a.uid(7).allow_network(true);
    let mut b = Sandbox::new();
    b.uid(7).uid(7).allow_network(true).allow_network(true);
    assert_eq!(a.get_uid(), b.get_uid());
    assert_eq!(a.network_allowed(), b.network_allowed());
}

#[test]
fn mounts_stack_in_declaration_order() {
    let mut s = Sandbox::new();
    s.mount(mapping("/usr")).mount(mapping("/usr"));
    assert_eq!(s.get_mappings().0.len(), 2);
    s.mounts(vec![mapping("/a"), mapping("/b")]);
    assert_eq!(s.get_mappings().0.len(), 4);
    assert_eq!(s.get_mappings().0[2].sandbox_path(), "/a");
    assert_eq!(s.get_mappings().0[3].sandbox_path(), "/b");
}

#[test]
fn mounts_clear_withdraws_everything() {
    let mut s = Sandbox::new();
    s.mount(mapping("/usr")).mounts_clear();
    assert!(s.get_mappings().0.is_empty());
}

#[test]
fn soft_links_accumulate_in_order() {
    let mut s = Sandbox::new();
    s.soft_link("/usr/lib64".to_string(), "/lib64".to_string());
    s.soft_links(vec![("/a".to_string(), "/b".to_string())]);
    assert_eq!(s.get_soft_links().len(), 2);
    assert_eq!(s.get_soft_links()[0].0, "/usr/lib64");
    assert_eq!(s.get_soft_links()[0].1, "/lib64");
    assert_eq!(s.get_soft_links()[1].0, "/a");
}

#[test]
fn directories_form_a_set() {
    let mut s = Sandbox::new();
    s.directory("/tmp".to_string()).directory("/tmp".to_string());
    assert_eq!(s.get_directories().len(), 1);
    s.directories(vec!["/var".to_string(), "/tmp".to_string(), "/var".to_string()]);
    assert_eq!(s.get_directories().len(), 2);
    assert_eq!(s.get_directories()[0], "/tmp");
    assert_eq!(s.get_directories()[1], "/var");
}
