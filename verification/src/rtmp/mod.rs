//! RTMP: handshake definitions and user control messages.

pub mod handshake;
pub mod user_control;
