use blink::protocol::{classify_agent_message, decode_vsock_header, AgentMessage};
use blink::shared::{MessageType, BLINK_MAGIC, HEADER_SIZE, PROTOCOL_VERSION};
use blink::vhub::{
    decode_header, encode_header, encode_packet, vhub_step, VhubAction, VhubError, VhubState,
};

const ALL_TYPES: [(MessageType, u8); 10] = [
    (MessageType::Handshake, 0x01),
    (MessageType::Heartbeat, 0x02),
    (MessageType::Error, 0x03),
    (MessageType::RpcRequest, 0x10),
    (MessageType::RpcResponse, 0x11),
    (MessageType::RpcError, 0x12),
    (MessageType::StreamData, 0x20),
    (MessageType::TtyResize, 0x21),
    (MessageType::Stdout, 0x30),
    (MessageType::Stderr, 0x31),
];

#[test]
fn message_type_bytes_round_trip() {
    for (t, b) in ALL_TYPES {
        assert_eq!(t.to_u8(), b);
        assert_eq!(MessageType::from_u8(b), Some(t));
    }
}

#[test]
fn unknown_message_type_bytes_are_refused() {
    for b in [0x00u8, 0x04, 0x0f, 0x13, 0x22, 0x32, 0xff] {
        assert_eq!(MessageType::from_u8(b), None);
    }
}

#[test]
fn header_layout_is_little_endian() {
    let h = encode_header(MessageType::RpcRequest, 0x0102_0304_0506_0708, 0x0a0b);
    assert_eq!(h.len(), HEADER_SIZE);
    assert_eq!(&h[0..4], &BLINK_MAGIC.to_le_bytes());
    assert_eq!(&h[0..4], b"NILB");
    assert_eq!(h[4], PROTOCOL_VERSION);
    assert_eq!(h[5], 0x10);
    assert_eq!(&h[6..8], &[0, 0]);
    assert_eq!(&h[8..12], &[0x0b, 0x0a, 0, 0]);
    assert_eq!(&h[12..20], &[8, 7, 6, 5, 4, 3, 2, 1]);
}

#[test]
fn header_decodes_what_was_encoded() {
    for (t, _) in ALL_TYPES {
        let h = encode_header(t, 77, 1234);
        let d = decode_header(&h).unwrap();
        assert_eq!(d.msg_type, t);
        assert_eq!(d.payload_len, 1234);
        assert_eq!(d.request_id, 77);
    }
}

#[test]
fn packet_is_header_then_payload() {
    let p = encode_packet(MessageType::Stdout, 5, b"hello");
    assert_eq!(p.len(), HEADER_SIZE + 5);
    assert_eq!(&p[..HEADER_SIZE], encode_header(MessageType::Stdout, 5, 5).as_slice());
    assert_eq!(&p[HEADER_SIZE..], b"hello");
}

#[test]
fn decode_refuses_bad_magic_version_and_type() {
    let mut h = encode_header(MessageType::Heartbeat, 1, 0);
    h[0] = 0;
    assert_eq!(decode_header(&h), Err(VhubError::InvalidMagic(0x424C_4900)));

    let mut h = encode_header(MessageType::Heartbeat, 1, 0);
    h[4] = 9;
    assert_eq!(decode_header(&h), Err(VhubError::UnsupportedVersion(9)));

    let mut h = encode_header(MessageType::Heartbeat, 1, 0);
    h[5] = 0x7f;
    assert_eq!(decode_header(&h), Err(VhubError::UnknownMessageType(0x7f)));
}

#[test]
fn session_answers_handshake_then_completes_on_rpc() {
    let (s, a) = vhub_step(VhubState::AwaitingHandshake, MessageType::Handshake, 3, vec![]);
    assert_eq!(s, VhubState::WaitingForRpc);
    match a {
        VhubAction::Reply(r) => {
            assert_eq!(r.msg_type, MessageType::Handshake);
            assert_eq!(r.request_id, 3);
            assert_eq!(r.payload, b"blink-vhub-ready".to_vec());
        },
        other => panic!("unexpected {other:?}"),
    }

    let (s, a) = vhub_step(s, MessageType::Stdout, 4, b"out".to_vec());
    assert_eq!(s, VhubState::WaitingForRpc);
    assert_eq!(a, VhubAction::WriteStdout(b"out".to_vec()));

    let (s, a) = vhub_step(s, MessageType::StreamData, 4, b"pty".to_vec());
    assert_eq!(a, VhubAction::WriteStdout(b"pty".to_vec()));
    let (s, a) = vhub_step(s, MessageType::Stderr, 4, b"err".to_vec());
    assert_eq!(a, VhubAction::WriteStderr(b"err".to_vec()));
    let (s, a) = vhub_step(s, MessageType::Heartbeat, 4, vec![]);
    assert_eq!(a, VhubAction::Ignore);
    let (s, a) = vhub_step(s, MessageType::TtyResize, 4, b"{}".to_vec());
    assert_eq!(a, VhubAction::Ignore);

    let (_, a) = vhub_step(s, MessageType::RpcRequest, 9, b"{\"m\":1}".to_vec());
    match a {
        VhubAction::Complete { reply, session } => {
            assert_eq!(reply.msg_type, MessageType::RpcResponse);
            assert_eq!(reply.request_id, 9);
            assert_eq!(reply.payload, b"{}".to_vec());
            assert_eq!(session.request_id, 9);
            assert_eq!(session.payload, b"{\"m\":1}".to_vec());
        },
        other => panic!("unexpected {other:?}"),
    }
}

#[test]
fn session_must_start_with_handshake() {
    let (s, a) = vhub_step(VhubState::AwaitingHandshake, MessageType::RpcRequest, 1, vec![]);
    assert_eq!(s, VhubState::AwaitingHandshake);
    assert_eq!(a, VhubAction::Fail(VhubError::ExpectedHandshake(MessageType::RpcRequest)));
}

#[test]
fn unexpected_packet_after_handshake_fails() {
    let (_, a) = vhub_step(VhubState::WaitingForRpc, MessageType::RpcError, 1, vec![]);
    assert_eq!(a, VhubAction::Fail(VhubError::UnexpectedMessage(MessageType::RpcError)));
}

#[test]
fn vsock_header_fields_are_read_little_endian() {
    let mut b = vec![0x4e, 0x49, 0x4c, 0x42, 1, 0x30, 0x34, 0x12];
    b.extend_from_slice(&[5, 0, 0, 0]);
    b.extend_from_slice(&[1, 0, 0, 0, 0, 0, 0, 0x80]);
    let h = decode_vsock_header(&b);
    assert_eq!(h.magic, blink::protocol::BLINK_MAGIC);
    assert_eq!(h.version, 1);
    assert_eq!(h.msg_type, 0x30);
    assert_eq!(h.flags, 0x1234);
    assert_eq!(h.payload_len, 5);
    assert_eq!(h.request_id, 0x8000_0000_0000_0001);
}

#[test]
fn listener_dispatches_on_message_type() {
    assert_eq!(classify_agent_message(0x10), AgentMessage::RpcRequest);
    assert_eq!(classify_agent_message(0x30), AgentMessage::Stdout);
    assert_eq!(classify_agent_message(0x31), AgentMessage::Unhandled(0x31));
}
