//! HLS playlist parsing: tags, attribute lists, media and master playlists.

pub mod attributes;
pub mod master;
pub mod media;
pub mod tags;
