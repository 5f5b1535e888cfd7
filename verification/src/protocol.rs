//! The TCP control channel's frames: a version byte, a message type byte, a
//! big-endian payload length and the payload.
use vstd::prelude::*;

use crate::bytes::{be16, from_be16, push_bytes};
use crate::text::{dec, push_dec, push_str, string_of};

verus! {

pub const PROTOCOL_VERSION: u8 = 1;

pub const HEADER_LEN: usize = 4;

pub const MAX_PAYLOAD_LEN: usize = 0xffff;

/// The message types of the control protocol.
#[derive(Debug, Clone, Copy, PartialEq, Eq, Structural)]
pub enum MessageType {
    Hello,
    HelloAck,
    PairRequest,
    PairAccept,
    PairReject,
    AuthChallenge,
    AuthResponse,
    StartStream,
    StopStream,
    StreamStarted,
    StreamStopped,
    ListStreams,
    Streams,
    SetStreamConfig,
    StreamConfigAck,
    Ping,
    Pong,
    ListDisplays,
    Displays,
    AddVirtualDisplay,
    RemoveVirtualDisplay,
    DisplayOpAck,
    Error,
}

/// The byte that stands for a message type on the wire.
pub open spec fn code_of(t: MessageType) -> u8 {
    match t {
        MessageType::Hello => 0x01,
        MessageType::HelloAck => 0x02,
        MessageType::PairRequest => 0x03,
        MessageType::PairAccept => 0x04,
        MessageType::PairReject => 0x05,
        MessageType::AuthChallenge => 0x06,
        MessageType::AuthResponse => 0x07,
        MessageType::StartStream => 0x10,
        MessageType::StopStream => 0x11,
        MessageType::StreamStarted => 0x12,
        MessageType::StreamStopped => 0x13,
        MessageType::ListStreams => 0x14,
        MessageType::Streams => 0x15,
        MessageType::SetStreamConfig => 0x16,
        MessageType::StreamConfigAck => 0x17,
        MessageType::Ping => 0x20,
        MessageType::Pong => 0x21,
        MessageType::ListDisplays => 0x30,
        MessageType::Displays => 0x31,
        MessageType::AddVirtualDisplay => 0x32,
        MessageType::RemoveVirtualDisplay => 0x33,
        MessageType::DisplayOpAck => 0x34,
        MessageType::Error => 0x7f,
    }
}

/// The message type a byte stands for, if any.
pub open spec fn type_of_code(c: u8) -> Option<MessageType> {
    match c {
        0x01 => Some(MessageType::Hello),
        0x02 => Some(MessageType::HelloAck),
        0x03 => Some(MessageType::PairRequest),
        0x04 => Some(MessageType::PairAccept),
        0x05 => Some(MessageType::PairReject),
        0x06 => Some(MessageType::AuthChallenge),
        0x07 => Some(MessageType::AuthResponse),
        0x10 => Some(MessageType::StartStream),
        0x11 => Some(MessageType::StopStream),
        0x12 => Some(MessageType::StreamStarted),
        0x13 => Some(MessageType::StreamStopped),
        0x14 => Some(MessageType::ListStreams),
        0x15 => Some(MessageType::Streams),
        0x16 => Some(MessageType::SetStreamConfig),
        0x17 => Some(MessageType::StreamConfigAck),
        0x20 => Some(MessageType::Ping),
        0x21 => Some(MessageType::Pong),
        0x30 => Some(MessageType::ListDisplays),
        0x31 => Some(MessageType::Displays),
        0x32 => Some(MessageType::AddVirtualDisplay),
        0x33 => Some(MessageType::RemoveVirtualDisplay),
        0x34 => Some(MessageType::DisplayOpAck),
        0x7f => Some(MessageType::Error),
        _ => None,
    }
}

/// The text of the error for an unknown message type byte.
pub open spec fn unknown_type_message(c: u8) -> Seq<char> {
    "Unknown message type: "@ + dec(c as nat)
}

impl MessageType {
    /// The byte that stands for this message type on the wire.
    pub fn code(self) -> (c: u8)
        ensures
            c == code_of(self),
    {
        match self {
            MessageType::Hello => 0x01,
            MessageType::HelloAck => 0x02,
            MessageType::PairRequest => 0x03,
            MessageType::PairAccept => 0x04,
            MessageType::PairReject => 0x05,
            MessageType::AuthChallenge => 0x06,
            MessageType::AuthResponse => 0x07,
            MessageType::StartStream => 0x10,
            MessageType::StopStream => 0x11,
            MessageType::StreamStarted => 0x12,
            MessageType::StreamStopped => 0x13,
            MessageType::ListStreams => 0x14,
            MessageType::Streams => 0x15,
            MessageType::SetStreamConfig => 0x16,
            MessageType::StreamConfigAck => 0x17,
            MessageType::Ping => 0x20,
            MessageType::Pong => 0x21,
            MessageType::ListDisplays => 0x30,
            MessageType::Displays => 0x31,
            MessageType::AddVirtualDisplay => 0x32,
            MessageType::RemoveVirtualDisplay => 0x33,
            MessageType::DisplayOpAck => 0x34,
            MessageType::Error => 0x7f,
        }
    }

    /// The message type a byte stands for, or an error naming the byte.
    pub fn try_from(value: u8) -> (r: Result<MessageType, String>)
        ensures
            match r {
                Ok(t) => type_of_code(value) == Some(t),
                Err(e) => type_of_code(value) is None && e@ == unknown_type_message(value),
            },
    {
        match value {
            0x01 => Ok(MessageType::Hello),
            0x02 => Ok(MessageType::HelloAck),
            0x03 => Ok(MessageType::PairRequest),
            0x04 => Ok(MessageType::PairAccept),
            0x05 => Ok(MessageType::PairReject),
            0x06 => Ok(MessageType::AuthChallenge),
            0x07 => Ok(MessageType::AuthResponse),
            0x10 => Ok(MessageType::StartStream),
            0x11 => Ok(MessageType::StopStream),
            0x12 => Ok(MessageType::StreamStarted),
            0x13 => Ok(MessageType::StreamStopped),
            0x14 => Ok(MessageType::ListStreams),
            0x15 => Ok(MessageType::Streams),
            0x16 => Ok(MessageType::SetStreamConfig),
            0x17 => Ok(MessageType::StreamConfigAck),
            0x20 => Ok(MessageType::Ping),
            0x21 => Ok(MessageType::Pong),
            0x30 => Ok(MessageType::ListDisplays),
            0x31 => Ok(MessageType::Displays),
            0x32 => Ok(MessageType::AddVirtualDisplay),
            0x33 => Ok(MessageType::RemoveVirtualDisplay),
            0x34 => Ok(MessageType::DisplayOpAck),
            0x7f => Ok(MessageType::Error),
            other => {
                let mut msg: Vec<char> = Vec::new();
                push_str(&mut msg, "Unknown message type: ");
                push_dec(&mut msg, other as u64);
                Err(string_of(&msg))
            },
        }
    }
}

/// Every message type has its own byte, and that byte reads back as the type.
pub proof fn lemma_code_roundtrip(t: MessageType)
    ensures
        type_of_code(code_of(t)) == Some(t),
{
}

/// A byte that names a message type is that type's byte.
pub proof fn lemma_type_of_code_inverse(c: u8)
    ensures
        type_of_code(c) matches Some(t) ==> code_of(t) == c,
{
}

/// The byte of each message type is the one the protocol fixes (Hello 0x01 to
/// AuthResponse 0x07, the stream messages from 0x10, Ping and Pong at 0x20,
/// the display messages from 0x30, Error 0x7f), and each of those bytes reads
/// back as its type.
pub proof fn lemma_wire_bytes()
    ensures
        code_of(MessageType::Hello) == 0x01 && type_of_code(0x01) == Some(MessageType::Hello),
        code_of(MessageType::HelloAck) == 0x02 && type_of_code(0x02) == Some(MessageType::HelloAck),
        code_of(MessageType::PairRequest) == 0x03 && type_of_code(0x03) == Some(MessageType::PairRequest),
        code_of(MessageType::PairAccept) == 0x04 && type_of_code(0x04) == Some(MessageType::PairAccept),
        code_of(MessageType::PairReject) == 0x05 && type_of_code(0x05) == Some(MessageType::PairReject),
        code_of(MessageType::AuthChallenge) == 0x06 && type_of_code(0x06) == Some(MessageType::AuthChallenge),
        code_of(MessageType::AuthResponse) == 0x07 && type_of_code(0x07) == Some(MessageType::AuthResponse),
        code_of(MessageType::StartStream) == 0x10 && type_of_code(0x10) == Some(MessageType::StartStream),
        code_of(MessageType::StopStream) == 0x11 && type_of_code(0x11) == Some(MessageType::StopStream),
        code_of(MessageType::StreamStarted) == 0x12 && type_of_code(0x12) == Some(MessageType::StreamStarted),
        code_of(MessageType::StreamStopped) == 0x13 && type_of_code(0x13) == Some(MessageType::StreamStopped),
        code_of(MessageType::ListStreams) == 0x14 && type_of_code(0x14) == Some(MessageType::ListStreams),
        code_of(MessageType::Streams) == 0x15 && type_of_code(0x15) == Some(MessageType::Streams),
        code_of(MessageType::SetStreamConfig) == 0x16 && type_of_code(0x16) == Some(MessageType::SetStreamConfig),
        code_of(MessageType::StreamConfigAck) == 0x17 && type_of_code(0x17) == Some(MessageType::StreamConfigAck),
        code_of(MessageType::Ping) == 0x20 && type_of_code(0x20) == Some(MessageType::Ping),
        code_of(MessageType::Pong) == 0x21 && type_of_code(0x21) == Some(MessageType::Pong),
        code_of(MessageType::ListDisplays) == 0x30 && type_of_code(0x30) == Some(MessageType::ListDisplays),
        code_of(MessageType::Displays) == 0x31 && type_of_code(0x31) == Some(MessageType::Displays),
        code_of(MessageType::AddVirtualDisplay) == 0x32 && type_of_code(0x32) == Some(MessageType::AddVirtualDisplay),
        code_of(MessageType::RemoveVirtualDisplay) == 0x33 && type_of_code(0x33) == Some(MessageType::RemoveVirtualDisplay),
        code_of(MessageType::DisplayOpAck) == 0x34 && type_of_code(0x34) == Some(MessageType::DisplayOpAck),
        code_of(MessageType::Error) == 0x7f && type_of_code(0x7f) == Some(MessageType::Error),
{
}

/// A message of the control channel.
#[derive(Debug, Clone)]
pub struct Frame {
    pub message_type: MessageType,
    pub payload: Vec<u8>,
}

/// The bytes of a frame on the wire.
pub open spec fn frame_bytes(t: MessageType, payload: Seq<u8>) -> Seq<u8> {
    seq![PROTOCOL_VERSION, code_of(t)] + be16(payload.len() as u16) + payload
}

/// The text of the error for a payload that does not fit the length field.
pub open spec fn too_large_message(n: nat) -> Seq<char> {
    "Payload too large: "@ + dec(n) + " bytes"@
}

impl Frame {
    pub fn new(message_type: MessageType, payload: Vec<u8>) -> (f: Self)
        ensures
            f.message_type == message_type,
            f.payload@ == payload@,
    {
        Frame { message_type, payload }
    }

    /// The wire form of the frame; a payload longer than 65535 bytes is refused.
    pub fn encode(&self) -> (r: Result<Vec<u8>, String>)
        ensures
            match r {
                Ok(bytes) => self.payload@.len() <= MAX_PAYLOAD_LEN && bytes@ == frame_bytes(
                    self.message_type,
                    self.payload@,
                ),
                Err(e) => self.payload@.len() > MAX_PAYLOAD_LEN && e@ == too_large_message(
                    self.payload@.len(),
                ),
            },
    {
        let n = self.payload.len();
        if n > MAX_PAYLOAD_LEN {
            let mut msg: Vec<char> = Vec::new();
            push_str(&mut msg, "Payload too large: ");
            push_dec(&mut msg, n as u64);
            push_str(&mut msg, " bytes");
            return Err(string_of(&msg));
        }
        let len = n as u16;
        let mut bytes: Vec<u8> = Vec::new();
        bytes.push(PROTOCOL_VERSION);
        bytes.push(self.message_type.code());
        bytes.push((len / 256) as u8);
        bytes.push((len % 256) as u8);
        push_bytes(&mut bytes, self.payload.as_slice());
        assert(bytes@ =~= frame_bytes(self.message_type, self.payload@));
        Ok(bytes)
    }
}

/// What a frame header says: the message type and the payload length, or why it is refused.
pub enum HeaderError {
    UnsupportedVersion(u8),
    UnknownType(u8),
}

/// The meaning of a 4-byte frame header.
pub open spec fn header_meaning(h: Seq<u8>) -> Result<(MessageType, nat), HeaderError> {
    if h[0] != PROTOCOL_VERSION {
        Err(HeaderError::UnsupportedVersion(h[0]))
    } else {
        match type_of_code(h[1]) {
            Some(t) => Ok((t, from_be16(h[2], h[3]))),
            None => Err(HeaderError::UnknownType(h[1])),
        }
    }
}

/// The text of the error for a header with another protocol version.
pub open spec fn version_message(v: u8) -> Seq<char> {
    "Unsupported protocol version: "@ + dec(v as nat)
}

/// Reads a frame header: the message type and how many payload bytes follow.
pub fn decode_header(header: &[u8; 4]) -> (r: Result<(MessageType, usize), String>)
    ensures
        match r {
            Ok((t, n)) => header_meaning(header@) == Ok::<(MessageType, nat), HeaderError>(
                (t, n as nat),
            ),
            Err(e) => match header_meaning(header@) {
                Err(HeaderError::UnsupportedVersion(v)) => e@ == version_message(v),
                Err(HeaderError::UnknownType(c)) => e@ == unknown_type_message(c),
                Ok(_) => false,
            },
        },
{
    if header[0] != PROTOCOL_VERSION {
        let mut msg: Vec<char> = Vec::new();
        push_str(&mut msg, "Unsupported protocol version: ");
        push_dec(&mut msg, header[0] as u64);
        return Err(string_of(&msg));
    }
    let message_type = match MessageType::try_from(header[1]) {
        Ok(t) => t,
        Err(e) => return Err(e),
    };
    let payload_len = (header[2] as usize) * 256 + header[3] as usize;
    Ok((message_type, payload_len))
}

/// What is written is what is read: the header of an encoded frame reads back
/// as the frame's type and payload length, and the payload follows it.
pub proof fn lemma_frame_roundtrip(t: MessageType, payload: Seq<u8>)
    requires
        payload.len() <= MAX_PAYLOAD_LEN,
    ensures
        header_meaning(frame_bytes(t, payload).take(4)) == Ok::<(MessageType, nat), HeaderError>(
            (t, payload.len()),
        ),
        frame_bytes(t, payload).skip(4) == payload,
{
    let b = frame_bytes(t, payload);
    crate::bytes::lemma_be16_roundtrip(payload.len() as u16);
    assert(b.take(4)[0] == PROTOCOL_VERSION);
    assert(b.take(4)[1] == code_of(t));
    assert(b.take(4)[2] == be16(payload.len() as u16)[0]);
    assert(b.take(4)[3] == be16(payload.len() as u16)[1]);
    assert(b.skip(4) =~= payload);
}

/// A frame read from a stream that holds its bytes and then anything else:
/// the first four bytes read as the frame's type and payload length, the next
/// `length` bytes are its payload, and what follows is left for the next frame.
pub proof fn lemma_frame_stream_roundtrip(t: MessageType, payload: Seq<u8>, rest: Seq<u8>)
    requires
        payload.len() <= MAX_PAYLOAD_LEN,
    ensures
        header_meaning((frame_bytes(t, payload) + rest).take(4)) == Ok::<
            (MessageType, nat),
            HeaderError,
        >((t, payload.len())),
        (frame_bytes(t, payload) + rest).subrange(4, 4 + payload.len() as int) == payload,
        (frame_bytes(t, payload) + rest).skip(4 + payload.len() as int) == rest,
{
    lemma_frame_roundtrip(t, payload);
    let b = frame_bytes(t, payload);
    assert((b + rest).take(4) =~= b.take(4));
    assert((b + rest).subrange(4, 4 + payload.len() as int) =~= b.skip(4));
    assert((b + rest).skip(4 + payload.len() as int) =~= rest);
}

} // verus!
