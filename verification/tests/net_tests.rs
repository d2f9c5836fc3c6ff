use bastille::net::{
    new_address_message, new_link_message, verify_echo, SequenceCounter, AF_INET, AF_UNSPEC,
    IFA_F_PERMANENT, IFF_UP, NLM_F_ACK, NLM_F_CREATE, NLM_F_EXCL, NLM_F_REQUEST, RTM_NEWADDR,
    RTM_NEWLINK, RT_SCOPE_HOST,
};
use bastille::SandboxError;

#[test]
fn address_message_assigns_loopback_address() {
    let mut counter = SequenceCounter::new();
    let msg = new_address_message(1, &mut counter, 4242);
    assert_eq!(msg.header.message_type, RTM_NEWADDR);
    assert_eq!(
        msg.header.flags,
        NLM_F_CREATE | NLM_F_EXCL | NLM_F_ACK | NLM_F_REQUEST
    );
    assert_eq!(msg.header.sequence_number, 0);
    assert_eq!(msg.header.port_number, 4242);
    assert_eq!(msg.family, AF_INET);
    assert_eq!(msg.prefix_len, 8);
    assert_eq!(msg.address_flags, IFA_F_PERMANENT);
    assert_eq!(msg.scope, RT_SCOPE_HOST);
    assert_eq!(msg.index, 1);
    assert_eq!(msg.local, vec![127, 0, 0, 1]);
    assert_eq!(msg.address, vec![127, 0, 0, 1]);
}

#[test]
fn link_message_sets_only_the_up_flag() {
    let mut counter = SequenceCounter::new();
    let _ = new_address_message(1, &mut counter, 9);
    let msg = new_link_message(1, &mut counter, 9);
    assert_eq!(msg.header.message_type, RTM_NEWLINK);
    assert_eq!(msg.header.flags, NLM_F_ACK | NLM_F_REQUEST);
    // The conversation numbers its requests consecutively.
    assert_eq!(msg.header.sequence_number, 1);
    assert_eq!(msg.interface_family, AF_UNSPEC);
    assert_eq!(msg.link_layer_type, 0);
    assert_eq!(msg.link_flags, IFF_UP);
    assert_eq!(msg.change_mask, IFF_UP);
}

#[test]
fn sequence_counter_wraps_around() {
    let mut counter = SequenceCounter::new();
    assert_eq!(counter.advance(), 0);
    assert_eq!(counter.advance(), 1);
    let mut near_end = SequenceCounter::new();
    for _ in 0..3 {
        near_end.advance();
    }
    assert_eq!(near_end.advance(), 3);
}

#[test]
fn echo_must_match_byte_for_byte() {
    let sent = vec![1u8, 2, 3];
    assert_eq!(verify_echo(&sent, &vec![1, 2, 3]), Ok(()));
    assert_eq!(
        verify_echo(&sent, &vec![1, 2, 4]),
        Err(SandboxError::EchoMismatch)
    );
    assert_eq!(
        verify_echo(&sent, &vec![1, 2]),
        Err(SandboxError::EchoMismatch)
    );
}
