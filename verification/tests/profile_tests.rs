use bastille::profile::{compose_profile, Profile};

const HEADER: &str = "(version 1)\n(deny default)\n(allow process*)\n";
const BASE: &str = "(allow file-read* (subpath \"/\"))\n(allow file-write* (subpath \"/\"))\n(allow network-bind (local ip \"localhost:*\"))\n(allow network-inbound (local ip \"localhost:*\"))\n(allow sysctl-read)\n";

#[test]
fn profile_starts_with_the_header() {
    let p = Profile::new();
    assert_eq!(p.as_str(), HEADER);
}

#[test]
fn push_appends_verbatim() {
    let mut p = Profile::new();
    p.push("(allow sysctl-read)\n");
    assert_eq!(p.as_str(), format!("{}(allow sysctl-read)\n", HEADER));
}

#[test]
fn restricted_profile_holds_exactly_the_base_rules() {
    let p = compose_profile(false, false, false);
    let text = p.as_str();
    assert_eq!(text, format!("{}{}", HEADER, BASE));
    assert!(!text.contains("file-ioctl"));
    assert!(!text.contains("system-socket"));
    assert!(!text.contains("sysctl-write"));
    assert!(text.contains("(allow sysctl-read)\n"));
    assert!(text.contains("(allow network-bind (local ip \"localhost:*\"))\n"));
    assert!(text.contains("(allow network-inbound (local ip \"localhost:*\"))\n"));
}

#[test]
fn devices_add_the_ioctl_rule() {
    let p = compose_profile(true, false, false);
    assert_eq!(
        p.as_str(),
        format!("{}{}(allow file-ioctl (subpath \"/\"))\n", HEADER, BASE)
    );
}

#[test]
fn network_adds_the_four_socket_rules() {
    let p = compose_profile(false, true, false);
    assert_eq!(
        p.as_str(),
        format!(
            "{}{}{}{}{}{}",
            HEADER,
            BASE,
            "(allow network* (local ip) (local tcp) (local udp))\n",
            "(allow network* (remote ip) (remote tcp) (remote udp))\n",
            "(allow network* (remote unix-socket))\n",
            "(allow system-socket)\n",
        )
    );
}

#[test]
fn sysctl_adds_the_write_rule_last() {
    let p = compose_profile(true, true, true);
    let text = p.as_str();
    assert!(text.starts_with(HEADER));
    assert!(text.ends_with("(allow sysctl-write)\n"));
    assert!(text.contains("(allow file-ioctl (subpath \"/\"))\n"));
    assert!(text.contains("(allow system-socket)\n"));
}
