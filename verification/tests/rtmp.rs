use scuffle_video::rtmp::handshake::{RtmpVersion, CHUNK_LENGTH, RTMP_HANDSHAKE_SIZE};
use scuffle_video::rtmp::user_control::{
    ChunkEncodeError, EventMessagesError, EventMessagesWriter, CONTROL_CHUNK_STREAM_ID,
    USER_CONTROL_MESSAGE_TYPE_ID,
};

#[test]
fn tests_test_error_display() {
    let error = EventMessagesError::ChunkEncode(ChunkEncodeError::UnknownReadState);
    assert_eq!(error.to_string(), "chunk encode error: unknown read state");
}

#[test]
fn test_write_stream_begin() {
    let chunk = EventMessagesWriter::write_stream_begin(1);
    assert_eq!(chunk.chunk_stream_id, 0x02);
    assert_eq!(chunk.msg_type_id, 0x04);
    assert_eq!(chunk.msg_stream_id, 0);
    assert_eq!(chunk.payload, vec![0x00, 0x00, 0x00, 0x00, 0x00, 0x01]);
}

#[test]
fn stream_begin_payload_is_big_endian() {
    let payload = EventMessagesWriter::stream_begin_payload(0x0102_0304);
    assert_eq!(payload, vec![0x00, 0x00, 0x01, 0x02, 0x03, 0x04]);
    assert_eq!(CONTROL_CHUNK_STREAM_ID, 2);
    assert_eq!(USER_CONTROL_MESSAGE_TYPE_ID, 4);
}

#[test]
fn rtmp_version_from_byte() {
    assert!(RtmpVersion::from_u8(3) == Some(RtmpVersion::Version3));
    assert!(RtmpVersion::from_u8(0) == Some(RtmpVersion::Unknown));
    assert!(RtmpVersion::from_u8(7).is_none());
    assert_eq!(RtmpVersion::Version3.to_u8(), 3);
    assert_eq!(CHUNK_LENGTH, 764);
    assert_eq!(RTMP_HANDSHAKE_SIZE, 1536);
}
