//! Packet header of the standalone vsock listener.

use vstd::prelude::*;

use crate::vhub::{u32_from_le, u64_from_le};

verus! {

pub const BLINK_MAGIC: u32 = 0x424C494E;

/// Size of [`VsockPacketHeader`] on the wire.
pub const VSOCK_HEADER_SIZE: usize = 20;

/// The packed 20-byte header, fields little-endian.
#[derive(Clone, Copy, Debug, PartialEq, Eq, Structural)]
pub struct VsockPacketHeader {
    pub magic: u32,
    pub version: u8,
    pub msg_type: u8,
    pub flags: u16,
    pub payload_len: u32,
    pub request_id: u64,
}

/// Message kinds of the standalone listener.
#[derive(Clone, Copy, Debug, PartialEq, Eq, Structural)]
pub enum MessageType {
    Handshake,
    Heartbeat,
    Error,
    RpcRequest,
    RpcResponse,
    RpcError,
    Stdout,
    Stderr,
}

/// The `u16` stored little-endian at `b[off..off + 2]`.
pub open spec fn u16_from_le(b: Seq<u8>, off: int) -> u16 {
    (b[off] as u16) | ((b[off + 1] as u16) << 8u16)
}

/// Read the header fields from 20 bytes.
pub fn decode_vsock_header(bytes: &[u8]) -> (r: VsockPacketHeader)
    requires
        bytes@.len() == VSOCK_HEADER_SIZE,
    ensures
        r == (VsockPacketHeader {
            magic: u32_from_le(bytes@, 0),
            version: bytes@[4],
            msg_type: bytes@[5],
            flags: u16_from_le(bytes@, 6),
            payload_len: u32_from_le(bytes@, 8),
            request_id: u64_from_le(bytes@, 12),
        }),
{
    let magic: u32 = (bytes[0] as u32) | ((bytes[1] as u32) << 8u32) | ((bytes[2] as u32)
        << 16u32) | ((bytes[3] as u32) << 24u32);
    let flags: u16 = (bytes[6] as u16) | ((bytes[7] as u16) << 8u16);
    let payload_len: u32 = (bytes[8] as u32) | ((bytes[9] as u32) << 8u32) | ((bytes[10] as u32)
        << 16u32) | ((bytes[11] as u32) << 24u32);
    let request_id: u64 = (bytes[12] as u64) | ((bytes[13] as u64) << 8u64) | ((bytes[14] as u64)
        << 16u64) | ((bytes[15] as u64) << 24u64) | ((bytes[16] as u64) << 32u64) | ((
    bytes[17] as u64) << 40u64) | ((bytes[18] as u64) << 48u64) | ((bytes[19] as u64) << 56u64);
    VsockPacketHeader {
        magic,
        version: bytes[4],
        msg_type: bytes[5],
        flags,
        payload_len,
        request_id,
    }
}

/// What the listener does with a packet of this type.
#[derive(Clone, Copy, Debug, PartialEq, Eq, Structural)]
pub enum AgentMessage {
    /// `0x10`: print the RPC request.
    RpcRequest,
    /// `0x30`: print the guest's stdout.
    Stdout,
    /// Anything else: report it as unhandled.
    Unhandled(u8),
}

/// Dispatch on the message type byte.
pub fn classify_agent_message(msg_type: u8) -> (r: AgentMessage)
    ensures
        r == if msg_type == 0x10 {
            AgentMessage::RpcRequest
        } else if msg_type == 0x30 {
            AgentMessage::Stdout
        } else {
            AgentMessage::Unhandled(msg_type)
        },
{
    if msg_type == 0x10 {
        AgentMessage::RpcRequest
    } else if msg_type == 0x30 {
        AgentMessage::Stdout
    } else {
        AgentMessage::Unhandled(msg_type)
    }
}

} // verus!
