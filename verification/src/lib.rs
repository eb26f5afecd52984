//! Playlist parsing, player decisions and RTMP message building for the
//! Scuffle video stack.

pub mod address;
pub mod text;
pub mod hls;
pub mod player;
pub mod types;
pub mod rendition_text;
pub mod thumbnail;
pub mod rtmp;
