//! Host/guest shared protocol definitions (BLIN V-Hub).

use vstd::prelude::*;

verus! {

/// Default OCI rootfs image for agent sandboxes.
pub const DEFAULT_ROOTFS_IMAGE: &'static str = "alpine:3.20";

/// `BLIN` in ASCII, little-endian on the wire.
pub const BLINK_MAGIC: u32 = 0x424C_494E;

pub const PROTOCOL_VERSION: u8 = 1;

pub const VHUB_PORT: u32 = 10000;

pub const VMADDR_CID_HOST: u32 = 2;

/// Guest path for agent memory and artifacts (persisted on session disk).
pub const AGENT_MEMORY_DIR: &'static str = "/var/blink/memory";

pub const HEADER_FORMAT: &'static str = "<I B B H I Q";

pub const HEADER_SIZE: usize = 20;

/// Kind of a BLIN packet.
#[derive(Clone, Copy, Debug, PartialEq, Eq, Structural)]
pub enum MessageType {
    Handshake,
    Heartbeat,
    Error,
    RpcRequest,
    RpcResponse,
    RpcError,
    /// Raw PTY byte stream (interactive terminal output/input).
    StreamData,
    /// Resize PTY window: JSON `{"rows":N,"cols":N}`.
    TtyResize,
    Stdout,
    Stderr,
}

/// The wire byte of each message type.
pub open spec fn message_type_byte(t: MessageType) -> u8 {
    match t {
        MessageType::Handshake => 0x01,
        MessageType::Heartbeat => 0x02,
        MessageType::Error => 0x03,
        MessageType::RpcRequest => 0x10,
        MessageType::RpcResponse => 0x11,
        MessageType::RpcError => 0x12,
        MessageType::StreamData => 0x20,
        MessageType::TtyResize => 0x21,
        MessageType::Stdout => 0x30,
        MessageType::Stderr => 0x31,
    }
}

/// The message type a wire byte stands for, if any.
pub open spec fn message_type_of_byte(value: u8) -> Option<MessageType> {
    if value == 0x01 {
        Some(MessageType::Handshake)
    } else if value == 0x02 {
        Some(MessageType::Heartbeat)
    } else if value == 0x03 {
        Some(MessageType::Error)
    } else if value == 0x10 {
        Some(MessageType::RpcRequest)
    } else if value == 0x11 {
        Some(MessageType::RpcResponse)
    } else if value == 0x12 {
        Some(MessageType::RpcError)
    } else if value == 0x20 {
        Some(MessageType::StreamData)
    } else if value == 0x21 {
        Some(MessageType::TtyResize)
    } else if value == 0x30 {
        Some(MessageType::Stdout)
    } else if value == 0x31 {
        Some(MessageType::Stderr)
    } else {
        None
    }
}

impl MessageType {
    pub fn from_u8(value: u8) -> (r: Option<Self>)
        ensures
            r == message_type_of_byte(value),
    {
        match value {
            0x01 => Some(Self::Handshake),
            0x02 => Some(Self::Heartbeat),
            0x03 => Some(Self::Error),
            0x10 => Some(Self::RpcRequest),
            0x11 => Some(Self::RpcResponse),
            0x12 => Some(Self::RpcError),
            0x20 => Some(Self::StreamData),
            0x21 => Some(Self::TtyResize),
            0x30 => Some(Self::Stdout),
            0x31 => Some(Self::Stderr),
            _ => None,
        }
    }

    /// The wire byte of this message type.
    pub fn to_u8(self) -> (r: u8)
        ensures
            r == message_type_byte(self),
    {
        match self {
            Self::Handshake => 0x01,
            Self::Heartbeat => 0x02,
            Self::Error => 0x03,
            Self::RpcRequest => 0x10,
            Self::RpcResponse => 0x11,
            Self::RpcError => 0x12,
            Self::StreamData => 0x20,
            Self::TtyResize => 0x21,
            Self::Stdout => 0x30,
            Self::Stderr => 0x31,
        }
    }
}

/// Decoding the byte of a message type gives that message type back.
pub proof fn lemma_message_type_byte_roundtrip(t: MessageType)
    ensures
        message_type_of_byte(message_type_byte(t)) == Some(t),
{
}

/// A byte that decodes to a message type is that message type's byte.
pub proof fn lemma_message_type_byte_unique(value: u8)
    ensures
        message_type_of_byte(value) matches Some(t) ==> message_type_byte(t) == value,
{
}

/// The `execution_result` JSON line an agent may print at the end of stdout.
#[derive(Clone, Debug)]
pub struct ExecutionPayload {
    pub event: String,
    pub stdout: String,
    pub stderr: String,
    pub exit_code: i32,
}

} // verus!
