//! Where the thumbnail of a live room is found.

use vstd::prelude::*;

use crate::address::{join_url, joined_url};
use crate::hls::media::opt_str;
use crate::player::api::pair_views;
use vstd::string::StringExecFns;

verus! {

/// What identifies the thumbnail of a room.
#[derive(Debug, Clone)]
pub struct RoomThubnailSettings {
    pub server: Option<String>,
    pub organization_id: String,
    pub room_id: String,
    pub token: Option<String>,
}

/// The edge server used when none is given.
pub open spec fn default_server() -> Seq<char> {
    "https://edge.scuffle.video"@
}

impl RoomThubnailSettings {
    /// The server to ask: the given one, or the default edge server.
    pub fn server_address(&self) -> (r: String)
        ensures
            r@ == match self.server {
                Some(s) => s@,
                None => default_server(),
            },
    {
        match &self.server {
            Some(s) => s.clone(),
            None => String::from_str("https://edge.scuffle.video"),
        }
    }

    /// The path of the thumbnail on the server: `/{organization}/{room}.jpg`.
    pub fn image_path(&self) -> (r: String)
        ensures
            r@ == "/"@ + self.organization_id@ + "/"@ + self.room_id@ + ".jpg"@,
    {
        let mut p = String::from_str("/");
        p.append(self.organization_id.as_str());
        p.append("/");
        p.append(self.room_id.as_str());
        p.append(".jpg");
        p
    }

    /// The query pair that carries the access token, when there is one.
    pub fn token_pair(&self) -> (r: Option<(String, String)>)
        ensures
            match (r, self.token) {
                (Some((k, v)), Some(t)) => k@ == "token"@ && v@ == t@,
                (None, None) => true,
                _ => false,
            },
    {
        match &self.token {
            Some(t) => Some((String::from_str("token"), t.clone())),
            None => None,
        }
    }
}


/// The server a thumbnail is asked from: the given one, or the default.
pub open spec fn thumbnail_server(s: RoomThubnailSettings) -> Seq<char> {
    match s.server {
        Some(x) => x@,
        None => default_server(),
    }
}

/// The path of a room's thumbnail: `/{organization}/{room}.jpg`.
pub open spec fn thumbnail_path(s: RoomThubnailSettings) -> Seq<char> {
    "/"@ + s.organization_id@ + "/"@ + s.room_id@ + ".jpg"@
}

/// The query pairs of a thumbnail address: the access token, when there is one.
pub open spec fn thumbnail_pairs(s: RoomThubnailSettings) -> Seq<(Seq<char>, Seq<char>)> {
    match s.token {
        Some(t) => seq![("token"@, t@)],
        None => Seq::empty(),
    }
}

/// The address of a room's thumbnail: the image path joined onto the given
/// (or the default) server, with the access token as a query pair when there
/// is one; none when the server is no valid address.
pub fn get_room_thumbnail(settings: RoomThubnailSettings) -> (r: Option<String>)
    ensures
        opt_str(r) == joined_url(
            thumbnail_server(settings),
            thumbnail_path(settings),
            thumbnail_pairs(settings),
        ),
{
    let server = settings.server_address();
    let path = settings.image_path();
    let mut pairs: Vec<(String, String)> = Vec::new();
    match settings.token_pair() {
        Some(p) => {
            pairs.push(p);
        },
        None => {},
    }
    assert(pair_views(pairs@) =~= thumbnail_pairs(settings));
    join_url(server.as_str(), path.as_str(), &pairs)
}

} // verus!
