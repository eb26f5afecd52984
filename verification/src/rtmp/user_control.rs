//! User control messages: the stream begin event.

use byteorder::ByteOrder;
use vstd::prelude::*;

verus! {

/// The event type of "stream begin".
pub const RTMP_EVENT_STREAM_BEGIN: u16 = 0;

/// The message type id of user control messages.
pub const USER_CONTROL_MESSAGE_TYPE_ID: u8 = 4;

/// The chunk stream that carries protocol control messages.
pub const CONTROL_CHUNK_STREAM_ID: u32 = 0x02;

/// Errors of chunk encoding.
#[derive(Debug, Clone, Copy, PartialEq, Eq, Structural)]
pub enum ChunkEncodeError {
    UnknownReadState,
}

/// Errors of writing user control messages.
#[derive(Debug, Clone, Copy, PartialEq, Eq, Structural)]
pub enum EventMessagesError {
    ChunkEncode(ChunkEncodeError),
}

/// How a chunk encoding error reads.
pub open spec fn chunk_encode_error_text(e: ChunkEncodeError) -> Seq<char> {
    match e {
        ChunkEncodeError::UnknownReadState => "unknown read state"@,
    }
}

impl ChunkEncodeError {
    /// How the error reads.
    pub fn to_string(&self) -> (r: String)
        ensures
            r@ == chunk_encode_error_text(*self),
    {
        match self {
            ChunkEncodeError::UnknownReadState => "unknown read state".to_owned(),
        }
    }
}

impl EventMessagesError {
    /// How the error reads: `chunk encode error: ` and the encoding error.
    pub fn to_string(&self) -> (r: String)
        ensures
            r@ == (match *self {
                EventMessagesError::ChunkEncode(e) => "chunk encode error: "@ + chunk_encode_error_text(e),
            }),
    {
        match self {
            EventMessagesError::ChunkEncode(e) => {
                let inner = e.to_string();
                let mut s = "chunk encode error: ".to_owned();
                s.append(inner.as_str());
                s
            },
        }
    }
}

/// The two bytes of `n`, most significant first.
pub open spec fn be16(n: u16) -> Seq<u8> {
    seq![(n / 256) as u8, (n % 256) as u8]
}

/// The four bytes of `n`, most significant first.
pub open spec fn be32(n: u32) -> Seq<u8> {
    seq![(n / 0x100_0000) as u8, ((n / 0x1_0000) % 256) as u8, ((n / 256) % 256) as u8, (n % 256) as u8]
}

/// Encodes a `u16` in big-endian order.
///
/// Calls `byteorder::BigEndian::write_u16` on a two-byte buffer; the
/// contract claims the bytes are those of `n`, most significant first.
#[verifier::external_body]
fn write_be_u16(n: u16) -> (r: [u8; 2])
    ensures
        r@ == be16(n),
{
    let mut buf = [0u8; 2];
    byteorder::BigEndian::write_u16(&mut buf, n);
    buf
}

/// Encodes a `u32` in big-endian order.
///
/// Calls `byteorder::BigEndian::write_u32` on a four-byte buffer; the
/// contract claims the bytes are those of `n`, most significant first.
#[verifier::external_body]
fn write_be_u32(n: u32) -> (r: [u8; 4])
    ensures
        r@ == be32(n),
{
    let mut buf = [0u8; 4];
    byteorder::BigEndian::write_u32(&mut buf, n);
    buf
}

/// A message ready to be split into chunks.
#[derive(Debug, Clone)]
pub struct ChunkMessage {
    pub chunk_stream_id: u32,
    pub timestamp: u32,
    pub msg_type_id: u8,
    pub msg_stream_id: u32,
    pub payload: Vec<u8>,
}

/// Writes user control messages.
pub struct EventMessagesWriter;

impl EventMessagesWriter {
    /// The payload of a stream begin event: the event type, then the stream id.
    pub fn stream_begin_payload(stream_id: u32) -> (r: Vec<u8>)
        ensures
            r@ == be16(RTMP_EVENT_STREAM_BEGIN) + be32(stream_id),
    {
        let t = write_be_u16(RTMP_EVENT_STREAM_BEGIN);
        let s = write_be_u32(stream_id);
        let mut data: Vec<u8> = Vec::new();
        data.push(t[0]);
        data.push(t[1]);
        data.push(s[0]);
        data.push(s[1]);
        data.push(s[2]);
        data.push(s[3]);
        assert(data@ == be16(RTMP_EVENT_STREAM_BEGIN) + be32(stream_id));
        data
    }

    /// The message announcing that stream `stream_id` begins: a user control
    /// message on the control chunk stream, with timestamp and message stream 0.
    pub fn write_stream_begin(stream_id: u32) -> (r: ChunkMessage)
        ensures
            r.chunk_stream_id == CONTROL_CHUNK_STREAM_ID,
            r.timestamp == 0,
            r.msg_type_id == USER_CONTROL_MESSAGE_TYPE_ID,
            r.msg_stream_id == 0,
            r.payload@ == be16(RTMP_EVENT_STREAM_BEGIN) + be32(stream_id),
    {
        ChunkMessage {
            chunk_stream_id: CONTROL_CHUNK_STREAM_ID,
            timestamp: 0,
            msg_type_id: USER_CONTROL_MESSAGE_TYPE_ID,
            msg_stream_id: 0,
            payload: Self::stream_begin_payload(stream_id),
        }
    }
}

} // verus!
