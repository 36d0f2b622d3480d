//! BLIN packet codec and the host-side V-Hub session dispatcher.
//!
//! Header (20 bytes, little-endian): magic `u32`, version `u8`, message type
//! `u8`, flags `u16`, payload length `u32`, request id `u64`.

use vstd::prelude::*;

use crate::shared::{
    message_type_byte, message_type_of_byte, MessageType, BLINK_MAGIC, HEADER_SIZE,
    PROTOCOL_VERSION,
};

verus! {

/// Little-endian bytes of a `u32`.
pub open spec fn le_bytes_u32(x: u32) -> Seq<u8> {
    seq![x as u8, (x >> 8u32) as u8, (x >> 16u32) as u8, (x >> 24u32) as u8]
}

/// Little-endian bytes of a `u64`.
pub open spec fn le_bytes_u64(x: u64) -> Seq<u8> {
    seq![
        x as u8,
        (x >> 8u64) as u8,
        (x >> 16u64) as u8,
        (x >> 24u64) as u8,
        (x >> 32u64) as u8,
        (x >> 40u64) as u8,
        (x >> 48u64) as u8,
        (x >> 56u64) as u8,
    ]
}

/// The `u32` stored little-endian at `b[off..off + 4]`.
pub open spec fn u32_from_le(b: Seq<u8>, off: int) -> u32 {
    (b[off] as u32) | ((b[off + 1] as u32) << 8u32) | ((b[off + 2] as u32) << 16u32) | ((b[off
        + 3] as u32) << 24u32)
}

/// The `u64` stored little-endian at `b[off..off + 8]`.
pub open spec fn u64_from_le(b: Seq<u8>, off: int) -> u64 {
    (b[off] as u64) | ((b[off + 1] as u64) << 8u64) | ((b[off + 2] as u64) << 16u64) | ((b[off
        + 3] as u64) << 24u64) | ((b[off + 4] as u64) << 32u64) | ((b[off + 5] as u64) << 40u64)
        | ((b[off + 6] as u64) << 48u64) | ((b[off + 7] as u64) << 56u64)
}

proof fn lemma_le_u32_roundtrip(x: u32, b: Seq<u8>, off: int)
    requires
        0 <= off,
        off + 4 <= b.len(),
        b.subrange(off, off + 4) == le_bytes_u32(x),
    ensures
        u32_from_le(b, off) == x,
{
    assert(b[off] == le_bytes_u32(x)[0]);
    assert(b[off + 1] == le_bytes_u32(x)[1]);
    assert(b[off + 2] == le_bytes_u32(x)[2]);
    assert(b[off + 3] == le_bytes_u32(x)[3]);
    let b0 = b[off];
    let b1 = b[off + 1];
    let b2 = b[off + 2];
    let b3 = b[off + 3];
    assert((b0 as u32) | ((b1 as u32) << 8u32) | ((b2 as u32) << 16u32) | ((b3 as u32) << 24u32)
        == x) by (bit_vector)
        requires
            b0 == x as u8,
            b1 == (x >> 8u32) as u8,
            b2 == (x >> 16u32) as u8,
            b3 == (x >> 24u32) as u8,
    ;
}

proof fn lemma_le_u64_roundtrip(x: u64, b: Seq<u8>, off: int)
    requires
        0 <= off,
        off + 8 <= b.len(),
        b.subrange(off, off + 8) == le_bytes_u64(x),
    ensures
        u64_from_le(b, off) == x,
{
    assert(b[off] == le_bytes_u64(x)[0]);
    assert(b[off + 1] == le_bytes_u64(x)[1]);
    assert(b[off + 2] == le_bytes_u64(x)[2]);
    assert(b[off + 3] == le_bytes_u64(x)[3]);
    assert(b[off + 4] == le_bytes_u64(x)[4]);
    assert(b[off + 5] == le_bytes_u64(x)[5]);
    assert(b[off + 6] == le_bytes_u64(x)[6]);
    assert(b[off + 7] == le_bytes_u64(x)[7]);
    let b0 = b[off];
    let b1 = b[off + 1];
    let b2 = b[off + 2];
    let b3 = b[off + 3];
    let b4 = b[off + 4];
    let b5 = b[off + 5];
    let b6 = b[off + 6];
    let b7 = b[off + 7];
    assert((b0 as u64) | ((b1 as u64) << 8u64) | ((b2 as u64) << 16u64) | ((b3 as u64) << 24u64)
        | ((b4 as u64) << 32u64) | ((b5 as u64) << 40u64) | ((b6 as u64) << 48u64) | ((
    b7 as u64) << 56u64) == x) by (bit_vector)
        requires
            b0 == x as u8,
            b1 == (x >> 8u64) as u8,
            b2 == (x >> 16u64) as u8,
            b3 == (x >> 24u64) as u8,
            b4 == (x >> 32u64) as u8,
            b5 == (x >> 40u64) as u8,
            b6 == (x >> 48u64) as u8,
            b7 == (x >> 56u64) as u8,
    ;
}

/// A decoded packet header.
#[derive(Clone, Copy, Debug, PartialEq, Eq, Structural)]
pub struct PacketHeader {
    pub msg_type: MessageType,
    pub payload_len: u32,
    pub request_id: u64,
}

/// Why a packet or a session was refused.
#[derive(Clone, Copy, Debug, PartialEq, Eq, Structural)]
pub enum VhubError {
    /// The first four bytes are not `BLIN`.
    InvalidMagic(u32),
    /// The version byte is not [`PROTOCOL_VERSION`].
    UnsupportedVersion(u8),
    /// The message type byte names no message type.
    UnknownMessageType(u8),
    /// The first packet of a session was not a handshake.
    ExpectedHandshake(MessageType),
    /// A packet that has no place while waiting for an RPC request.
    UnexpectedMessage(MessageType),
}

/// The 20 header bytes for a packet.
pub open spec fn header_bytes(msg_type: MessageType, request_id: u64, payload_len: u32) -> Seq<
    u8,
> {
    le_bytes_u32(BLINK_MAGIC) + seq![PROTOCOL_VERSION, message_type_byte(msg_type), 0u8, 0u8]
        + le_bytes_u32(payload_len) + le_bytes_u64(request_id)
}

/// What decoding 20 header bytes gives.
pub open spec fn decode_header_spec(b: Seq<u8>) -> Result<PacketHeader, VhubError> {
    let magic = u32_from_le(b, 0);
    if magic != BLINK_MAGIC {
        Err(VhubError::InvalidMagic(magic))
    } else if b[4] != PROTOCOL_VERSION {
        Err(VhubError::UnsupportedVersion(b[4]))
    } else {
        match message_type_of_byte(b[5]) {
            None => Err(VhubError::UnknownMessageType(b[5])),
            Some(t) => Ok(
                PacketHeader {
                    msg_type: t,
                    payload_len: u32_from_le(b, 8),
                    request_id: u64_from_le(b, 12),
                },
            ),
        }
    }
}

/// Push the little-endian bytes of `x`.
fn push_le_u32(out: &mut Vec<u8>, x: u32)
    ensures
        final(out)@ == old(out)@ + le_bytes_u32(x),
{
    out.push(x as u8);
    out.push((x >> 8u32) as u8);
    out.push((x >> 16u32) as u8);
    out.push((x >> 24u32) as u8);
    assert(final(out)@ =~= old(out)@ + le_bytes_u32(x));
}

/// Push the little-endian bytes of `x`.
fn push_le_u64(out: &mut Vec<u8>, x: u64)
    ensures
        final(out)@ == old(out)@ + le_bytes_u64(x),
{
    out.push(x as u8);
    out.push((x >> 8u64) as u8);
    out.push((x >> 16u64) as u8);
    out.push((x >> 24u64) as u8);
    out.push((x >> 32u64) as u8);
    out.push((x >> 40u64) as u8);
    out.push((x >> 48u64) as u8);
    out.push((x >> 56u64) as u8);
    assert(final(out)@ =~= old(out)@ + le_bytes_u64(x));
}

/// The header of a packet whose payload has `payload_len` bytes; the length
/// field holds `payload_len as u32`.
pub fn encode_header(msg_type: MessageType, request_id: u64, payload_len: usize) -> (r: Vec<u8>)
    ensures
        r@ == header_bytes(msg_type, request_id, payload_len as u32),
        r@.len() == HEADER_SIZE,
{
    let mut out: Vec<u8> = Vec::new();
    push_le_u32(&mut out, BLINK_MAGIC);
    out.push(PROTOCOL_VERSION);
    out.push(msg_type.to_u8());
    out.push(0u8);
    out.push(0u8);
    push_le_u32(&mut out, payload_len as u32);
    push_le_u64(&mut out, request_id);
    assert(out@ =~= header_bytes(msg_type, request_id, payload_len as u32));
    out
}

/// A whole packet: header followed by the payload.
pub fn encode_packet(msg_type: MessageType, request_id: u64, payload: &[u8]) -> (r: Vec<u8>)
    ensures
        r@ == header_bytes(msg_type, request_id, payload@.len() as u32) + payload@,
{
    let mut out = encode_header(msg_type, request_id, payload.len());
    let ghost head = out@;
    let n = payload.len();
    let mut i: usize = 0;
    while i < n
        invariant
            n == payload@.len(),
            i <= n,
            out@ == head + payload@.subrange(0, i as int),
        decreases n - i,
    {
        out.push(payload[i]);
        i = i + 1;
        assert(out@ =~= head + payload@.subrange(0, i as int));
    }
    assert(payload@.subrange(0, n as int) =~= payload@);
    out
}

/// Decode the 20 header bytes: check magic and version, resolve the message
/// type, read length and request id.
pub fn decode_header(header: &[u8]) -> (r: Result<PacketHeader, VhubError>)
    requires
        header@.len() == HEADER_SIZE,
    ensures
        r == decode_header_spec(header@),
{
    let magic: u32 = (header[0] as u32) | ((header[1] as u32) << 8u32) | ((header[2] as u32)
        << 16u32) | ((header[3] as u32) << 24u32);
    if magic != BLINK_MAGIC {
        return Err(VhubError::InvalidMagic(magic));
    }
    let version = header[4];
    if version != PROTOCOL_VERSION {
        return Err(VhubError::UnsupportedVersion(version));
    }
    let msg_type = match MessageType::from_u8(header[5]) {
        Some(t) => t,
        None => {
            return Err(VhubError::UnknownMessageType(header[5]));
        },
    };
    let payload_len: u32 = (header[8] as u32) | ((header[9] as u32) << 8u32) | ((header[10] as u32)
        << 16u32) | ((header[11] as u32) << 24u32);
    let request_id: u64 = (header[12] as u64) | ((header[13] as u64) << 8u64) | ((
    header[14] as u64) << 16u64) | ((header[15] as u64) << 24u64) | ((header[16] as u64)
        << 32u64) | ((header[17] as u64) << 40u64) | ((header[18] as u64) << 48u64) | ((
    header[19] as u64) << 56u64);
    Ok(PacketHeader { msg_type, payload_len, request_id })
}

/// Decoding an encoded header gives back its message type, length and
/// request id.
pub proof fn lemma_header_roundtrip(msg_type: MessageType, request_id: u64, payload_len: u32)
    ensures
        decode_header_spec(header_bytes(msg_type, request_id, payload_len)) == Ok::<
            PacketHeader,
            VhubError,
        >(PacketHeader { msg_type, payload_len, request_id }),
{
    let b = header_bytes(msg_type, request_id, payload_len);
    assert(b.subrange(0, 4) =~= le_bytes_u32(BLINK_MAGIC));
    assert(b.subrange(8, 12) =~= le_bytes_u32(payload_len));
    assert(b.subrange(12, 20) =~= le_bytes_u64(request_id));
    lemma_le_u32_roundtrip(BLINK_MAGIC, b, 0);
    lemma_le_u32_roundtrip(payload_len, b, 8);
    lemma_le_u64_roundtrip(request_id, b, 12);
    assert(b[4] == PROTOCOL_VERSION);
    assert(b[5] == message_type_byte(msg_type));
}

/// The RPC request that ended a V-Hub session.
#[derive(Clone, Debug, PartialEq, Eq)]
pub struct VhubSession {
    pub request_id: u64,
    pub payload: Vec<u8>,
}

/// Where a V-Hub session stands.
#[derive(Clone, Copy, Debug, PartialEq, Eq, Structural)]
pub enum VhubState {
    /// No packet read yet: the first must be a handshake.
    AwaitingHandshake,
    /// Handshake answered: relaying output until an RPC request arrives.
    WaitingForRpc,
}

/// A packet to write back to the guest.
#[derive(Clone, Debug, PartialEq, Eq)]
pub struct VhubReply {
    pub msg_type: MessageType,
    pub request_id: u64,
    pub payload: Vec<u8>,
}

/// What the host does with one packet read from the guest.
#[derive(Clone, Debug, PartialEq, Eq)]
pub enum VhubAction {
    /// Write this packet and read on.
    Reply(VhubReply),
    /// Write the payload to the host's stdout and read on.
    WriteStdout(Vec<u8>),
    /// Write the payload to the host's stderr and read on.
    WriteStderr(Vec<u8>),
    /// Read on.
    Ignore,
    /// Write the reply, then end the session with this request.
    Complete { reply: VhubReply, session: VhubSession },
    /// End the session with this error.
    Fail(VhubError),
}

/// A packet, as values.
pub struct PacketView {
    pub msg_type: MessageType,
    pub request_id: u64,
    pub payload: Seq<u8>,
}

/// An action, as values.
pub enum VhubActionView {
    Reply(PacketView),
    WriteStdout(Seq<u8>),
    WriteStderr(Seq<u8>),
    Ignore,
    Complete { reply: PacketView, request_id: u64, payload: Seq<u8> },
    Fail(VhubError),
}

impl View for VhubReply {
    type V = PacketView;

    open spec fn view(&self) -> PacketView {
        PacketView { msg_type: self.msg_type, request_id: self.request_id, payload: self.payload@ }
    }
}

impl View for VhubAction {
    type V = VhubActionView;

    open spec fn view(&self) -> VhubActionView {
        match self {
            VhubAction::Reply(r) => VhubActionView::Reply(r@),
            VhubAction::WriteStdout(b) => VhubActionView::WriteStdout(b@),
            VhubAction::WriteStderr(b) => VhubActionView::WriteStderr(b@),
            VhubAction::Ignore => VhubActionView::Ignore,
            VhubAction::Complete { reply, session } => VhubActionView::Complete {
                reply: reply@,
                request_id: session.request_id,
                payload: session.payload@,
            },
            VhubAction::Fail(e) => VhubActionView::Fail(*e),
        }
    }
}

/// `blink-vhub-ready` in ASCII: the handshake reply payload.
pub open spec fn handshake_ready_bytes() -> Seq<u8> {
    seq![98u8, 108, 105, 110, 107, 45, 118, 104, 117, 98, 45, 114, 101, 97, 100, 121]
}

/// `{}` in ASCII: the RPC response payload.
pub open spec fn empty_json_object_bytes() -> Seq<u8> {
    seq![123u8, 125]
}

/// The dispatcher's decision for one packet.
pub open spec fn vhub_step_spec(state: VhubState, packet: PacketView) -> (VhubState, VhubActionView) {
    match state {
        VhubState::AwaitingHandshake => if packet.msg_type == MessageType::Handshake {
            (
                VhubState::WaitingForRpc,
                VhubActionView::Reply(
                    PacketView {
                        msg_type: MessageType::Handshake,
                        request_id: packet.request_id,
                        payload: handshake_ready_bytes(),
                    },
                ),
            )
        } else {
            (state, VhubActionView::Fail(VhubError::ExpectedHandshake(packet.msg_type)))
        },
        VhubState::WaitingForRpc => match packet.msg_type {
            MessageType::RpcRequest => (
                state,
                VhubActionView::Complete {
                    reply: PacketView {
                        msg_type: MessageType::RpcResponse,
                        request_id: packet.request_id,
                        payload: empty_json_object_bytes(),
                    },
                    request_id: packet.request_id,
                    payload: packet.payload,
                },
            ),
            MessageType::Stdout | MessageType::StreamData => (
                state,
                VhubActionView::WriteStdout(packet.payload),
            ),
            MessageType::Stderr => (state, VhubActionView::WriteStderr(packet.payload)),
            MessageType::TtyResize | MessageType::Heartbeat => (state, VhubActionView::Ignore),
            other => (state, VhubActionView::Fail(VhubError::UnexpectedMessage(other))),
        },
    }
}

/// Decide what to do with one packet read in `state`.
pub fn vhub_step(state: VhubState, msg_type: MessageType, request_id: u64, payload: Vec<u8>) -> (r: (
    VhubState,
    VhubAction,
))
    ensures
        (r.0, r.1@) == vhub_step_spec(
            state,
            PacketView { msg_type, request_id, payload: payload@ },
        ),
{
    match state {
        VhubState::AwaitingHandshake => {
            if msg_type == MessageType::Handshake {
                let ready: Vec<u8> = vec![98u8, 108, 105, 110, 107, 45, 118, 104, 117, 98, 45, 114, 101, 97, 100, 121];
                assert(ready@ =~= handshake_ready_bytes());
                (
                    VhubState::WaitingForRpc,
                    VhubAction::Reply(
                        VhubReply { msg_type: MessageType::Handshake, request_id, payload: ready },
                    ),
                )
            } else {
                (state, VhubAction::Fail(VhubError::ExpectedHandshake(msg_type)))
            }
        },
        VhubState::WaitingForRpc => match msg_type {
            MessageType::RpcRequest => {
                let body: Vec<u8> = vec![123u8, 125];
                assert(body@ =~= empty_json_object_bytes());
                (
                    state,
                    VhubAction::Complete {
                        reply: VhubReply {
                            msg_type: MessageType::RpcResponse,
                            request_id,
                            payload: body,
                        },
                        session: VhubSession { request_id, payload },
                    },
                )
            },
            MessageType::Stdout | MessageType::StreamData => (
                state,
                VhubAction::WriteStdout(payload),
            ),
            MessageType::Stderr => (state, VhubAction::WriteStderr(payload)),
            MessageType::TtyResize | MessageType::Heartbeat => (state, VhubAction::Ignore),
            other => (state, VhubAction::Fail(VhubError::UnexpectedMessage(other))),
        },
    }
}

/// How a session ends after a sequence of packets, if it ends.
pub enum VhubOutcome {
    /// The packets ran out before an RPC request.
    Pending(VhubState),
    /// The session ended with this RPC request.
    Done { request_id: u64, payload: Seq<u8> },
    /// The session was refused.
    Failed(VhubError),
}

/// Feed packets to the dispatcher from `state` until it completes or fails.
pub open spec fn vhub_run(state: VhubState, packets: Seq<PacketView>) -> VhubOutcome
    decreases packets.len(),
{
    if packets.len() == 0 {
        VhubOutcome::Pending(state)
    } else {
        let (next, action) = vhub_step_spec(state, packets[0]);
        match action {
            VhubActionView::Complete { request_id, payload, .. } => VhubOutcome::Done {
                request_id,
                payload,
            },
            VhubActionView::Fail(e) => VhubOutcome::Failed(e),
            _ => vhub_run(next, packets.drop_first()),
        }
    }
}

/// Packets that the dispatcher relays or ignores while waiting for an RPC.
pub open spec fn is_stream_or_idle(t: MessageType) -> bool {
    t == MessageType::Stdout || t == MessageType::Stderr || t == MessageType::StreamData
        || t == MessageType::TtyResize || t == MessageType::Heartbeat
}

proof fn lemma_run_waiting(packets: Seq<PacketView>, k: int)
    requires
        0 <= k < packets.len(),
        packets[k].msg_type == MessageType::RpcRequest,
        forall|j: int| 0 <= j < k ==> is_stream_or_idle(#[trigger] packets[j].msg_type),
    ensures
        vhub_run(VhubState::WaitingForRpc, packets) == (VhubOutcome::Done {
            request_id: packets[k].request_id,
            payload: packets[k].payload,
        }),
    decreases k,
{
    if k > 0 {
        let rest = packets.drop_first();
        assert(is_stream_or_idle(packets[0].msg_type));
        assert forall|j: int| 0 <= j < k - 1 implies is_stream_or_idle(
            #[trigger] rest[j].msg_type,
        ) by {
            assert(rest[j] == packets[j + 1]);
        }
        assert(rest[k - 1] == packets[k]);
        lemma_run_waiting(rest, k - 1);
    }
}

/// A session that opens with a handshake and then sees only output, resize
/// and heartbeat packets before its first RPC request ends with that request.
pub proof fn lemma_session_returns_first_rpc(packets: Seq<PacketView>, k: int)
    requires
        0 < k < packets.len(),
        packets[0].msg_type == MessageType::Handshake,
        packets[k].msg_type == MessageType::RpcRequest,
        forall|j: int| 0 < j < k ==> is_stream_or_idle(#[trigger] packets[j].msg_type),
    ensures
        vhub_run(VhubState::AwaitingHandshake, packets) == (VhubOutcome::Done {
            request_id: packets[k].request_id,
            payload: packets[k].payload,
        }),
{
    let rest = packets.drop_first();
    assert forall|j: int| 0 <= j < k - 1 implies is_stream_or_idle(#[trigger] rest[j].msg_type) by {
        assert(rest[j] == packets[j + 1]);
    }
    assert(rest[k - 1] == packets[k]);
    lemma_run_waiting(rest, k - 1);
}

/// A session whose first packet is not a handshake is refused at once.
pub proof fn lemma_session_requires_handshake(packets: Seq<PacketView>)
    requires
        packets.len() > 0,
        packets[0].msg_type != MessageType::Handshake,
    ensures
        vhub_run(VhubState::AwaitingHandshake, packets) == VhubOutcome::Failed(
            VhubError::ExpectedHandshake(packets[0].msg_type),
        ),
{
}

} // verus!
