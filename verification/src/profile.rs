//! The kernel sandbox profile: a Scheme-syntax allow/deny document composed
//! from the configuration's policy bits.

use vstd::prelude::*;
use vstd::string::StringExecFns;

verus! {

/// The lines every profile begins with: deny everything, then allow process
/// operations.
pub open spec fn spec_profile_header() -> Seq<char> {
    "(version 1)\n(deny default)\n(allow process*)\n"@
}

/// The whole profile for one configuration: the header, the base filesystem
/// and loopback allowances, then one optional block per policy bit, in the
/// order devices, network, sysctl.
pub open spec fn spec_profile(
    allow_devices: bool,
    allow_network: bool,
    allow_sysctl: bool,
) -> Seq<char> {
    spec_profile_header() + "(allow file-read* (subpath \"/\"))\n"@
        + "(allow file-write* (subpath \"/\"))\n"@
        + "(allow network-bind (local ip \"localhost:*\"))\n"@
        + "(allow network-inbound (local ip \"localhost:*\"))\n"@ + "(allow sysctl-read)\n"@ + (
    if allow_devices {
        "(allow file-ioctl (subpath \"/\"))\n"@
    } else {
        Seq::<char>::empty()
    }) + (if allow_network {
        "(allow network* (local ip) (local tcp) (local udp))\n"@
            + "(allow network* (remote ip) (remote tcp) (remote udp))\n"@
            + "(allow network* (remote unix-socket))\n"@ + "(allow system-socket)\n"@
    } else {
        Seq::<char>::empty()
    }) + (if allow_sysctl {
        "(allow sysctl-write)\n"@
    } else {
        Seq::<char>::empty()
    })
}

/// A sandbox profile under construction: the header followed by whatever
/// has been appended.
#[derive(Debug)]
pub struct Profile {
    text: String,
}

impl View for Profile {
    type V = Seq<char>;

    closed spec fn view(&self) -> Seq<char> {
        self.text@
    }
}

impl Profile {
    /// A profile holding only the header.
    pub fn new() -> (r: Self)
        ensures
            r@ == spec_profile_header(),
    {
        Profile { text: String::from_str("(version 1)\n(deny default)\n(allow process*)\n") }
    }

    /// Appends lines verbatim at the end of the profile.
    pub fn push(&mut self, lines: &str)
        ensures
            final(self)@ == old(self)@ + lines@,
    {
        self.text.append(lines);
    }

    /// The profile text, to be handed to the kernel after conversion to a
    /// C string.
    pub fn as_str(&self) -> (r: &str)
        ensures
            r@ == self@,
    {
        self.text.as_str()
    }
}

/// Composes the whole profile for one configuration; see `spec_profile`.
pub fn compose_profile(allow_devices: bool, allow_network: bool, allow_sysctl: bool) -> (r: Profile)
    ensures
        r@ == spec_profile(allow_devices, allow_network, allow_sysctl),
{
    let mut profile = Profile::new();
    profile.push("(allow file-read* (subpath \"/\"))\n");
    profile.push("(allow file-write* (subpath \"/\"))\n");
    profile.push("(allow network-bind (local ip \"localhost:*\"))\n");
    profile.push("(allow network-inbound (local ip \"localhost:*\"))\n");
    profile.push("(allow sysctl-read)\n");
    if allow_devices {
        profile.push("(allow file-ioctl (subpath \"/\"))\n");
    }
    if allow_network {
        profile.push("(allow network* (local ip) (local tcp) (local udp))\n");
        profile.push("(allow network* (remote ip) (remote tcp) (remote udp))\n");
        profile.push("(allow network* (remote unix-socket))\n");
        profile.push("(allow system-socket)\n");
    }
    if allow_sysctl {
        profile.push("(allow sysctl-write)\n");
    }
    proof {
        assert(profile@ =~= spec_profile(allow_devices, allow_network, allow_sysctl));
    }
    profile
}

} // verus!
