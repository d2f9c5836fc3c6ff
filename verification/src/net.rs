//! Loopback configuration planning: the two route-family netlink messages
//! that assign `127.0.0.1/8` to the loopback interface and bring it up, as
//! plain field values.  The caller encodes them onto a netlink socket and
//! feeds the echoed reply back for comparison.

use vstd::prelude::*;

use crate::error::SandboxError;

verus! {

/// Request flag: this message asks for something.
pub const NLM_F_REQUEST: u16 = 0x0001;

/// Request flag: acknowledge the request.
pub const NLM_F_ACK: u16 = 0x0004;

/// Request flag: do not touch an existing object.
pub const NLM_F_EXCL: u16 = 0x0200;

/// Request flag: create the object if it does not exist.
pub const NLM_F_CREATE: u16 = 0x0400;

/// Message type: add an address.
pub const RTM_NEWADDR: u16 = 20;

/// Message type: change a link.
pub const RTM_NEWLINK: u16 = 16;

/// Address family of IPv4.
pub const AF_INET: u8 = 2;

/// Unspecified address family.
pub const AF_UNSPEC: u8 = 0;

/// Address scope: valid only on this host.
pub const RT_SCOPE_HOST: u8 = 254;

/// Address flag: a permanent address.
pub const IFA_F_PERMANENT: u8 = 0x80;

/// Link flag: the interface is up.
pub const IFF_UP: u32 = 0x1;

/// The sequence numbers of a netlink conversation: an in-process counter
/// that wraps around.
pub struct SequenceCounter {
    next: u32,
}

impl View for SequenceCounter {
    type V = u32;

    closed spec fn view(&self) -> u32 {
        self.next
    }
}

impl SequenceCounter {
    /// A fresh conversation, numbering from zero.
    pub fn new() -> (r: Self)
        ensures
            r@ == 0u32,
    {
        SequenceCounter { next: 0 }
    }

    /// Hands out the next sequence number and advances, wrapping at the
    /// end of the range.
    pub fn advance(&mut self) -> (r: u32)
        ensures
            r == old(self)@,
            old(self)@ < u32::MAX ==> final(self)@ == old(self)@ + 1,
            old(self)@ == u32::MAX ==> final(self)@ == 0u32,
    {
        let current = self.next;
        if self.next == u32::MAX {
            self.next = 0;
        } else {
            self.next = self.next + 1;
        }
        current
    }
}

/// The header fields of one netlink request.
pub struct NetlinkHeaderPlan {
    pub message_type: u16,
    pub flags: u16,
    pub sequence_number: u32,
    pub port_number: u32,
}

/// Plans one request header: the given flags joined with the request flag,
/// the next sequence number, and the caller's port (its process id).
pub fn netlink_header(
    message_type: u16,
    flags: u16,
    counter: &mut SequenceCounter,
    port_number: u32,
) -> (r: NetlinkHeaderPlan)
    ensures
        r.message_type == message_type,
        r.flags == flags | NLM_F_REQUEST,
        r.sequence_number == old(counter)@,
        old(counter)@ < u32::MAX ==> final(counter)@ == old(counter)@ + 1,
        old(counter)@ == u32::MAX ==> final(counter)@ == 0u32,
        r.port_number == port_number,
{
    let sequence_number = counter.advance();
    NetlinkHeaderPlan { message_type, flags: flags | NLM_F_REQUEST, sequence_number, port_number }
}

/// The fields of the address-assignment message: IPv4 `127.0.0.1/8`,
/// permanent, host scope, on the given interface.
pub struct AddressMessagePlan {
    pub header: NetlinkHeaderPlan,
    pub family: u8,
    pub prefix_len: u8,
    pub address_flags: u8,
    pub scope: u8,
    pub index: u32,
    pub local: Vec<u8>,
    pub address: Vec<u8>,
}

/// Plans the address-assignment request for the loopback interface.
pub fn new_address_message(index: u32, counter: &mut SequenceCounter, port_number: u32) -> (r:
    AddressMessagePlan)
    ensures
        r.header.message_type == RTM_NEWADDR,
        r.header.flags == (NLM_F_CREATE | NLM_F_EXCL | NLM_F_ACK) | NLM_F_REQUEST,
        r.header.sequence_number == old(counter)@,
        r.header.port_number == port_number,
        r.family == AF_INET,
        r.prefix_len == 8u8,
        r.address_flags == IFA_F_PERMANENT,
        r.scope == RT_SCOPE_HOST,
        r.index == index,
        r.local@ == seq![127u8, 0u8, 0u8, 1u8],
        r.address@ == seq![127u8, 0u8, 0u8, 1u8],
{
    let header = netlink_header(RTM_NEWADDR, NLM_F_CREATE | NLM_F_EXCL | NLM_F_ACK, counter,
        port_number);
    let mut local: Vec<u8> = Vec::new();
    local.push(127);
    local.push(0);
    local.push(0);
    local.push(1);
    let mut address: Vec<u8> = Vec::new();
    address.push(127);
    address.push(0);
    address.push(0);
    address.push(1);
    proof {
        assert(local@ =~= seq![127u8, 0u8, 0u8, 1u8]);
        assert(address@ =~= seq![127u8, 0u8, 0u8, 1u8]);
    }
    AddressMessagePlan {
        header,
        family: AF_INET,
        prefix_len: 8,
        address_flags: IFA_F_PERMANENT,
        scope: RT_SCOPE_HOST,
        index,
        local,
        address,
    }
}

/// The fields of the link-change message: set the up flag, touching
/// nothing else.
pub struct LinkMessagePlan {
    pub header: NetlinkHeaderPlan,
    pub interface_family: u8,
    pub link_layer_type: u16,
    pub index: u32,
    pub link_flags: u32,
    pub change_mask: u32,
}

/// Plans the bring-up request for the loopback interface.
pub fn new_link_message(index: u32, counter: &mut SequenceCounter, port_number: u32) -> (r:
    LinkMessagePlan)
    ensures
        r.header.message_type == RTM_NEWLINK,
        r.header.flags == NLM_F_ACK | NLM_F_REQUEST,
        r.header.sequence_number == old(counter)@,
        r.header.port_number == port_number,
        r.interface_family == AF_UNSPEC,
        r.link_layer_type == 0u16,
        r.index == index,
        r.link_flags == IFF_UP,
        r.change_mask == IFF_UP,
{
    let header = netlink_header(RTM_NEWLINK, NLM_F_ACK, counter, port_number);
    LinkMessagePlan {
        header,
        interface_family: AF_UNSPEC,
        link_layer_type: 0,
        index,
        link_flags: IFF_UP,
        change_mask: IFF_UP,
    }
}

/// Compares the echoed reply with the bytes that were sent; the loopback
/// conversation expects each request to be echoed verbatim and treats any
/// difference as a failure.
pub fn verify_echo(sent: &Vec<u8>, received: &Vec<u8>) -> (r: Result<(), SandboxError>)
    ensures
        r is Ok <==> sent@ == received@,
        r is Err ==> r == Err::<(), SandboxError>(SandboxError::EchoMismatch),
{
    if sent.len() != received.len() {
        return Err(SandboxError::EchoMismatch);
    }
    let mut idx: usize = 0;
    while idx < sent.len()
        invariant
            sent@.len() == received@.len(),
            0 <= idx <= sent@.len(),
            forall|i: int| 0 <= i < idx ==> sent@[i] == received@[i],
        decreases sent@.len() - idx,
    {
        if sent[idx] != received[idx] {
            return Err(SandboxError::EchoMismatch);
        }
        idx = idx + 1;
    }
    proof {
        assert(sent@ =~= received@);
    }
    Ok(())
}

} // verus!
