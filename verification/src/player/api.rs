//! What the player asks the server for when it fetches a rendition playlist.

use vstd::prelude::*;

use crate::address::{join_url, joined_url};
use crate::hls::media::opt_str;
use crate::text::{decimal, push_decimal};
use vstd::string::StringExecFns;

verus! {

/// Which part a playlist request waits for.
#[derive(Debug, Clone, Copy, PartialEq, Eq, Structural)]
pub enum ScufflePart {
    /// Wait until this part is available.
    Part(u32),
    /// Wait until an independent part after this one is available.
    IPart(u32),
}

/// The options of a rendition playlist request.
#[derive(Debug, Clone, Copy, PartialEq, Eq, Structural)]
pub struct RenditionSettings {
    pub scuffle_part: Option<ScufflePart>,
    pub scuffle_dvr: bool,
    pub hls_skip: bool,
}

/// The views of query pairs.
pub open spec fn pair_views(s: Seq<(String, String)>) -> Seq<(Seq<char>, Seq<char>)> {
    s.map_values(|p: (String, String)| (p.0@, p.1@))
}

/// The query pairs of a rendition playlist request, in the order they are
/// appended: the JSON marker, the awaited part, DVR and playlist delta.
pub open spec fn rendition_query(s: RenditionSettings) -> Seq<(Seq<char>, Seq<char>)> {
    seq![("_SCUFFLE_json"@, "YES"@)] + match s.scuffle_part {
        Some(ScufflePart::Part(p)) => seq![("_SCUFFLE_part"@, decimal(p as nat))],
        Some(ScufflePart::IPart(p)) => seq![("_SCUFFLE_ipart"@, decimal(p as nat))],
        None => Seq::empty(),
    } + if s.scuffle_dvr {
        seq![("_SCUFFLE_dvr"@, "YES"@)]
    } else {
        Seq::empty()
    } + if s.hls_skip {
        seq![("_HLS_skip"@, "YES"@)]
    } else {
        Seq::empty()
    }
}

/// Appending one pair to a list of pairs appends its view.
proof fn lemma_pair_views_push(s: Seq<(String, String)>, p: (String, String))
    ensures
        pair_views(s.push(p)) == pair_views(s).push((p.0@, p.1@)),
{
    assert(pair_views(s.push(p)) =~= pair_views(s).push((p.0@, p.1@)));
}

impl RenditionSettings {
    /// The query pairs that a request for a rendition playlist with these
    /// settings carries, in order.
    pub fn query_pairs(&self) -> (r: Vec<(String, String)>)
        ensures
            pair_views(r@) == rendition_query(*self),
    {
        let mut r: Vec<(String, String)> = Vec::new();
        let ghost q0 = r@;
        r.push((String::from_str("_SCUFFLE_json"), String::from_str("YES")));
        proof {
            lemma_pair_views_push(q0, r@.last());
        }
        let ghost after_json = pair_views(r@);
        match self.scuffle_part {
            Some(ScufflePart::Part(p)) => {
                let mut v = String::new();
                push_decimal(&mut v, p as u64);
                let ghost q = r@;
                r.push((String::from_str("_SCUFFLE_part"), v));
                proof {
                    lemma_pair_views_push(q, r@.last());
                }
            },
            Some(ScufflePart::IPart(p)) => {
                let mut v = String::new();
                push_decimal(&mut v, p as u64);
                let ghost q = r@;
                r.push((String::from_str("_SCUFFLE_ipart"), v));
                proof {
                    lemma_pair_views_push(q, r@.last());
                }
            },
            None => {},
        }
        let ghost after_part = pair_views(r@);
        if self.scuffle_dvr {
            let ghost q = r@;
            r.push((String::from_str("_SCUFFLE_dvr"), String::from_str("YES")));
            proof {
                lemma_pair_views_push(q, r@.last());
            }
        }
        let ghost after_dvr = pair_views(r@);
        if self.hls_skip {
            let ghost q = r@;
            r.push((String::from_str("_HLS_skip"), String::from_str("YES")));
            proof {
                lemma_pair_views_push(q, r@.last());
            }
        }
        proof {
            let part_pairs = match self.scuffle_part {
                Some(ScufflePart::Part(p)) => seq![("_SCUFFLE_part"@, decimal(p as nat))],
                Some(ScufflePart::IPart(p)) => seq![("_SCUFFLE_ipart"@, decimal(p as nat))],
                None => Seq::empty(),
            };
            assert(after_json =~= seq![("_SCUFFLE_json"@, "YES"@)]);
            assert(after_part =~= after_json + part_pairs);
            assert(pair_views(r@) =~= rendition_query(*self));
        }
        r
    }
}


/// The address of a rendition playlist on the session server at `server`:
/// `{rendition}.m3u8` joined onto it, carrying the query pairs of the
/// request settings; none when the server is no valid address.
pub fn rendition_url(server: &str, rendition: &str, settings: &RenditionSettings) -> (r: Option<String>)
    ensures
        opt_str(r) == joined_url(server@, rendition@ + ".m3u8"@, rendition_query(*settings)),
{
    let mut path = String::from_str(rendition);
    path.append(".m3u8");
    let pairs = settings.query_pairs();
    join_url(server, path.as_str(), &pairs)
}

/// The path of the playlist of a room or, with `recording`, of a recording.
pub open spec fn session_path(id: Seq<char>, recording: bool) -> Seq<char> {
    (if recording { "r/"@ } else { Seq::empty() }) + id + ".m3u8"@
}

/// The query pairs of a room or recording playlist request: the JSON marker,
/// then the access token when there is one.
pub open spec fn session_query(token: Option<Seq<char>>) -> Seq<(Seq<char>, Seq<char>)> {
    seq![("_SCUFFLE_json"@, "YES"@)] + match token {
        Some(t) => seq![("token"@, t)],
        None => Seq::empty(),
    }
}

/// The address of the playlist of the room (or, with `recording`, the
/// recording) with id text `id` on the organization's server at `server`,
/// with the JSON marker and the access token when there is one; none when
/// the server is no valid address.
pub fn session_url(server: &str, id: &str, recording: bool, token: Option<&str>) -> (r: Option<String>)
    ensures
        opt_str(r) == joined_url(
            server@,
            session_path(id@, recording),
            session_query(
                match token {
                    Some(t) => Some(t@),
                    None => None,
                },
            ),
        ),
{
    let mut path = if recording {
        String::from_str("r/")
    } else {
        String::new()
    };
    path.append(id);
    path.append(".m3u8");
    assert(path@ =~= session_path(id@, recording));
    let mut pairs: Vec<(String, String)> = Vec::new();
    pairs.push((String::from_str("_SCUFFLE_json"), String::from_str("YES")));
    match token {
        Some(t) => {
            pairs.push((String::from_str("token"), String::from_str(t)));
        },
        None => {},
    }
    assert(pair_views(pairs@) =~= session_query(
        match token {
            Some(t) => Some(t@),
            None => None,
        },
    ));
    join_url(server, path.as_str(), &pairs)
}

} // verus!
