//! The playlist descriptions that the server sends to the player.

use vstd::prelude::*;

use crate::hls::attributes::same_chars;
use crate::text::{chars_of, decimal, push_decimal};
use vstd::arithmetic::power::pow;
use vstd::string::StringExecFns;

verus! {

/// The tracks of a room or recording session.
#[derive(Debug, Clone)]
pub struct SessionPlaylist {
    pub video_tracks: Vec<RoomPlaylistTrack<RoomPlaylistTrackVideo>>,
    pub audio_tracks: Vec<RoomPlaylistTrack<RoomPlaylistTrackAudio>>,
    pub session: String,
}

/// One track of a session: its rendition name, bitrate and codec, and the
/// details of its kind.
#[derive(Debug, Clone)]
pub struct RoomPlaylistTrack<T> {
    pub name: String,
    pub bitrate: u32,
    pub codec: String,
    pub other: T,
}

/// The details of a video track.
#[derive(Debug, Clone, Copy, PartialEq, Eq, Structural)]
pub struct RoomPlaylistTrackVideo {
    pub width: u32,
    pub height: u32,
    pub frame_rate: u32,
}

/// The details of an audio track.
#[derive(Debug, Clone, Copy, PartialEq, Eq, Structural)]
pub struct RoomPlaylistTrackAudio {
    pub channels: u32,
    pub sample_rate: u32,
}

/// The state of one rendition, as another rendition's playlist reports it.
#[derive(Debug, Clone)]
pub struct RenditionPlaylistRendition {
    pub name: String,
    pub last_segment_idx: u32,
    pub last_independent_part_idx: u32,
    pub last_segment_part_idx: u32,
}

/// A part of a segment of a rendition playlist.
#[derive(Debug, Clone)]
pub struct RenditionPlaylistSegmentPart {
    pub id: String,
    pub independent: bool,
}

/// A segment of a rendition playlist.
#[derive(Debug, Clone)]
pub struct RenditionPlaylistSegment {
    pub id: Option<String>,
    pub idx: u32,
    pub dvr_tag: Option<String>,
    pub parts: Vec<RenditionPlaylistSegmentPart>,
}

/// A rendition playlist: its segments and the parts announced ahead of
/// time. Addresses are kept as their text. Parts are numbered consecutively; the last announced part has
/// number `last_pre_fetch_part_idx`.
#[derive(Debug, Clone)]
pub struct RenditionPlaylist {
    pub segments: Vec<RenditionPlaylistSegment>,
    pub pre_fetch_part_ids: Vec<String>,
    pub last_pre_fetch_part_idx: u32,
    pub init_segment_id: String,
    pub init_dvr: bool,
    pub finished: bool,
    pub renditions: Vec<RenditionPlaylistRendition>,
    pub msn: u32,
    pub skip_segments: u32,
    /// The address prefix of the recorded segments, when the rendition is recorded.
    pub dvr_prefix: Option<String>,
    /// The address prefix of the thumbnails, when there are any.
    pub thumbnail_prefix: Option<String>,
}

/// All parts of a playlist, in order: those of its segments (not announced
/// ahead) and then the announced ones; each with whether it is announced ahead.
pub open spec fn all_parts(p: RenditionPlaylist) -> Seq<(Seq<char>, bool)> {
    segment_entries(p.segments@) + ahead_entries(p.pre_fetch_part_ids@)
}

/// The parts of a sequence of segments, none announced ahead.
pub open spec fn segment_entries(segs: Seq<RenditionPlaylistSegment>) -> Seq<(Seq<char>, bool)>
    decreases segs.len(),
{
    if segs.len() == 0 {
        seq![]
    } else {
        segment_entries(segs.drop_last()) + seg_entries(segs.last().parts@)
    }
}

/// The parts of one segment, none announced ahead.
pub open spec fn seg_entries(parts: Seq<RenditionPlaylistSegmentPart>) -> Seq<(Seq<char>, bool)> {
    parts.map_values(|p: RenditionPlaylistSegmentPart| (p.id@, false))
}

/// Parts announced ahead.
pub open spec fn ahead_entries(ids: Seq<String>) -> Seq<(Seq<char>, bool)> {
    ids.map_values(|id: String| (id@, true))
}

/// The views of part entries.
pub open spec fn entry_views(s: Seq<(String, bool)>) -> Seq<(Seq<char>, bool)> {
    s.map_values(|x: (String, bool)| (x.0@, x.1))
}

/// The position of the first part with id `id`, if any.
pub open spec fn part_pos(parts: Seq<(Seq<char>, bool)>, id: Seq<char>) -> Option<int> {
    if exists|x: int| 0 <= x < parts.len() && parts[x].0 == id {
        Some(
            choose|x: int|
                0 <= x < parts.len() && parts[x].0 == id && forall|y: int|
                    0 <= y < x ==> parts[y].0 != id,
        )
    } else {
        None
    }
}

/// The number of the first part of the playlist.
pub open spec fn first_part_number(p: RenditionPlaylist) -> int {
    p.last_pre_fetch_part_idx + 1 - all_parts(p).len()
}

/// Whether numbering the part with id `id` stays within `u32`.
pub open spec fn part_number_fits(p: RenditionPlaylist, id: Seq<char>) -> bool {
    match part_pos(all_parts(p), id) {
        Some(x) => all_parts(p).len() <= u32::MAX && 0 <= first_part_number(p) + x <= u32::MAX
            && x + p.last_pre_fetch_part_idx + 1 <= u32::MAX,
        None => true,
    }
}

/// The first position with id `id` is unique.
proof fn lemma_part_pos(parts: Seq<(Seq<char>, bool)>, id: Seq<char>, x: int)
    requires
        0 <= x < parts.len(),
        parts[x].0 == id,
        forall|y: int| 0 <= y < x ==> parts[y].0 != id,
    ensures
        part_pos(parts, id) == Some(x),
{
    let c = choose|c: int|
        0 <= c < parts.len() && parts[c].0 == id && forall|y: int| 0 <= y < c ==> parts[y].0 != id;
    assert(0 <= c < parts.len() && parts[c].0 == id && forall|y: int|
        0 <= y < c ==> parts[y].0 != id);
    if c < x {
        assert(parts[c].0 != id);
    }
    if c > x {
        assert(parts[x].0 != id);
    }
}

/// Viewing a list after a push views the list and then the pushed entry.
proof fn lemma_entry_views_push(s: Seq<(String, bool)>, e: (String, bool))
    ensures
        entry_views(s.push(e)) == entry_views(s).push((e.0@, e.1)),
{
    assert(entry_views(s.push(e)) =~= entry_views(s).push((e.0@, e.1)));
}

/// The parts of a prefix of a segment, one part longer.
proof fn lemma_seg_entries_step(parts: Seq<RenditionPlaylistSegmentPart>, j: int)
    requires
        0 <= j < parts.len(),
    ensures
        seg_entries(parts.take(j + 1)) == seg_entries(parts.take(j)).push((parts[j].id@, false)),
{
    assert(parts.take(j + 1) =~= parts.take(j).push(parts[j]));
    assert(seg_entries(parts.take(j + 1)) =~= seg_entries(parts.take(j)).push((parts[j].id@, false)));
}

/// The announced parts of a prefix, one part longer.
proof fn lemma_ahead_entries_step(ids: Seq<String>, k: int)
    requires
        0 <= k < ids.len(),
    ensures
        ahead_entries(ids.take(k + 1)) == ahead_entries(ids.take(k)).push((ids[k]@, true)),
{
    assert(ids.take(k + 1) =~= ids.take(k).push(ids[k]));
    assert(ahead_entries(ids.take(k + 1)) =~= ahead_entries(ids.take(k)).push((ids[k]@, true)));
}

impl RenditionPlaylist {
    /// The parts of the playlist in order, each with whether it is announced ahead.
    fn parts_list(&self) -> (r: Vec<(String, bool)>)
        ensures
            entry_views(r@) == all_parts(*self),
    {
        let mut out: Vec<(String, bool)> = Vec::new();
        let mut i: usize = 0;
        assert(self.segments@.take(0) == Seq::<RenditionPlaylistSegment>::empty());
        while i < self.segments.len()
            invariant
                i <= self.segments.len(),
                entry_views(out@) == segment_entries(self.segments@.take(i as int)),
            decreases self.segments.len() - i,
        {
            let seg = &self.segments[i];
            let ghost base = entry_views(out@);
            let mut j: usize = 0;
            while j < seg.parts.len()
                invariant
                    j <= seg.parts.len(),
                    entry_views(out@) == base + seg_entries(seg.parts@.take(j as int)),
                decreases seg.parts.len() - j,
            {
                let ghost before = out@;
                out.push((seg.parts[j].id.clone(), false));
                proof {
                    lemma_entry_views_push(before, (seg.parts@[j as int].id, false));
                    lemma_seg_entries_step(seg.parts@, j as int);
                }
                j = j + 1;
            }
            proof {
                assert(seg.parts@.take(j as int) == seg.parts@);
                assert(self.segments@.take(i + 1).drop_last() == self.segments@.take(i as int));
                assert(self.segments@.take(i + 1).last() == *seg);
                assert(segment_entries(self.segments@.take(i + 1)) == base + seg_entries(seg.parts@));
            }
            i = i + 1;
        }
        proof {
            assert(self.segments@.take(i as int) == self.segments@);
        }
        let ghost base = entry_views(out@);
        let mut k: usize = 0;
        while k < self.pre_fetch_part_ids.len()
            invariant
                k <= self.pre_fetch_part_ids.len(),
                entry_views(out@) == base
                    + ahead_entries(self.pre_fetch_part_ids@.take(k as int)),
            decreases self.pre_fetch_part_ids.len() - k,
        {
            let ghost before = out@;
            out.push((self.pre_fetch_part_ids[k].clone(), true));
            proof {
                lemma_entry_views_push(before, (self.pre_fetch_part_ids@[k as int], true));
                lemma_ahead_entries_step(self.pre_fetch_part_ids@, k as int);
            }
            k = k + 1;
        }
        proof {
            assert(self.pre_fetch_part_ids@.take(k as int) == self.pre_fetch_part_ids@);
        }
        out
    }

    /// The number of the part with id `id` and whether it is announced ahead;
    /// none when no part has that id.
    pub fn part_idx(&self, id: &str) -> (r: Option<(u32, bool)>)
        requires
            part_number_fits(*self, id@),
        ensures
            match part_pos(all_parts(*self), id@) {
                Some(x) => r == Some((
                    (first_part_number(*self) + x) as u32,
                    all_parts(*self)[x].1,
                )),
                None => r is None,
            },
    {
        let parts = self.parts_list();
        let ghost pv = entry_views(parts@);
        let key = chars_of(id);
        let mut x: usize = 0;
        let mut found: Option<usize> = None;
        while x < parts.len()
            invariant_except_break
                found is None,
            invariant
                x <= parts.len(),
                pv == entry_views(parts@),
                key@ == id@,
                forall|y: int| 0 <= y < x ==> pv[y].0 != id@,
            ensures
                match found {
                    Some(p) => p < pv.len() && pv[p as int].0 == id@ && forall|y: int|
                        0 <= y < p ==> pv[y].0 != id@,
                    None => forall|y: int| 0 <= y < pv.len() ==> pv[y].0 != id@,
                },
            decreases parts.len() - x,
        {
            let pc = chars_of(parts[x].0.as_str());
            if same_chars(&pc, &key) {
                found = Some(x);
                break;
            }
            x = x + 1;
        }
        match found {
            Some(p) => {
                proof {
                    lemma_part_pos(pv, id@, p as int);
                }
                let n = parts.len() as u32;
                let number = p as u32 + self.last_pre_fetch_part_idx + 1 - n;
                Some((number, parts[p].1))
            },
            None => {
                assert(!(exists|z: int| 0 <= z < pv.len() && pv[z].0 == id@));
                None
            },
        }
    }

    /// The id of part number `idx` and whether it is announced ahead; the
    /// first part for a number before the first, none past the last.
    pub fn part(&self, idx: u32) -> (r: Option<(String, bool)>)
        requires
            all_parts(*self).len() <= self.last_pre_fetch_part_idx + 1,
            self.last_pre_fetch_part_idx < u32::MAX,
        ensures
            ({
                let parts = all_parts(*self);
                let k = if idx < first_part_number(*self) {
                    0
                } else {
                    idx - first_part_number(*self)
                };
                match r {
                    Some((s, b)) => 0 <= k < parts.len() && parts[k] == (s@, b),
                    None => k >= parts.len(),
                }
            }),
    {
        let parts = self.parts_list();
        let ghost pv = entry_views(parts@);
        let start = self.last_pre_fetch_part_idx + 1 - parts.len() as u32;
        let k: usize = if idx < start {
            0
        } else {
            (idx - start) as usize
        };
        if k < parts.len() {
            let (s, b) = (parts[k].0.clone(), parts[k].1);
            assert(pv[k as int] == (s@, b));
            Some((s, b))
        } else {
            None
        }
    }
}


/// The Crockford base-32 digits, in order of value.
pub open spec fn crockford_digits() -> Seq<char> {
    seq![
        '0', '1', '2', '3', '4', '5', '6', '7', '8', '9', 'A', 'B', 'C', 'D', 'E', 'F',
        'G', 'H', 'J', 'K', 'M', 'N', 'P', 'Q', 'R', 'S', 'T', 'V', 'W', 'X', 'Y', 'Z',
    ]
}

/// The canonical text of the ULID with value `id`: its 128 bits as 26
/// Crockford base-32 digits, most significant first.
pub open spec fn ulid_text(id: u128) -> Seq<char> {
    Seq::new(26, |p: int| crockford_digits()[(id as int / pow(32, (25 - p) as nat)) % 32])
}

/// The canonical text of the ULID with value `id`.
///
/// Calls `ulid::Ulid::to_string` on `Ulid(id)`. Its source writes the value
/// as 26 base-32 digits from the alphabet `0-9A-Z` without `I`, `L`, `O` and
/// `U`, least significant digit last; the contract claims exactly that.
#[verifier::external_body]
pub(crate) fn ulid_text_of(id: u128) -> (s: String)
    ensures
        s@ == ulid_text(id),
{
    ulid::Ulid(id).to_string()
}

/// The media line of one audio track of a session.
pub open spec fn audio_media_line(
    t: RoomPlaylistTrack<RoomPlaylistTrackAudio>,
    session: Seq<char>,
    org: Seq<char>,
) -> Seq<char> {
    "#EXT-X-MEDIA:TYPE=AUDIO,GROUP-ID=\""@ + t.name@ + "\",DEFAULT=YES,AUTOSELECT=YES,NAME=\""@
        + t.name@ + "\",CHANNELS=\""@ + decimal(t.other.channels as nat) + "\",URI=\"/"@ + org
        + "/"@ + session + "/"@ + t.name@ + ".m3u8\"\n"@
}

/// The media lines of a sequence of audio tracks.
pub open spec fn audio_media_lines(
    ts: Seq<RoomPlaylistTrack<RoomPlaylistTrackAudio>>,
    session: Seq<char>,
    org: Seq<char>,
) -> Seq<char>
    decreases ts.len(),
{
    if ts.len() == 0 {
        seq![]
    } else {
        audio_media_lines(ts.drop_last(), session, org) + audio_media_line(ts.last(), session, org)
    }
}

/// The stream entry for one video track paired with one audio track: its
/// description line and its URI line.
pub open spec fn stream_entry(
    v: RoomPlaylistTrack<RoomPlaylistTrackVideo>,
    a: RoomPlaylistTrack<RoomPlaylistTrackAudio>,
    session: Seq<char>,
    org: Seq<char>,
) -> Seq<char> {
    "#EXT-X-STREAM-INF:BANDWIDTH="@ + decimal((v.bitrate + a.bitrate) as nat) + ",CODECS=\""@
        + v.codec@ + ","@ + a.codec@ + "\",RESOLUTION="@ + decimal(v.other.width as nat) + "x"@
        + decimal(v.other.height as nat) + ",FRAME-RATE="@ + decimal(v.other.frame_rate as nat)
        + ",AUDIO=\""@ + a.name@ + "\"\n/"@ + org + "/"@ + session + "/"@ + v.name@ + ".m3u8\n"@
}

/// The stream entries of one video track, one per audio track in order.
pub open spec fn video_stream_entries(
    v: RoomPlaylistTrack<RoomPlaylistTrackVideo>,
    audios: Seq<RoomPlaylistTrack<RoomPlaylistTrackAudio>>,
    session: Seq<char>,
    org: Seq<char>,
) -> Seq<char>
    decreases audios.len(),
{
    if audios.len() == 0 {
        seq![]
    } else {
        video_stream_entries(v, audios.drop_last(), session, org) + stream_entry(
            v,
            audios.last(),
            session,
            org,
        )
    }
}

/// The stream entries of all video tracks, each paired with every audio track.
pub open spec fn stream_entries(
    videos: Seq<RoomPlaylistTrack<RoomPlaylistTrackVideo>>,
    audios: Seq<RoomPlaylistTrack<RoomPlaylistTrackAudio>>,
    session: Seq<char>,
    org: Seq<char>,
) -> Seq<char>
    decreases videos.len(),
{
    if videos.len() == 0 {
        seq![]
    } else {
        stream_entries(videos.drop_last(), audios, session, org) + video_stream_entries(
            videos.last(),
            audios,
            session,
            org,
        )
    }
}

/// The master playlist of a session, for the organization whose ULID text is `org`.
pub open spec fn session_m3u8(p: SessionPlaylist, org: Seq<char>) -> Seq<char> {
    "#EXTM3U\n#EXT-X-INDEPENDENT-SEGMENTS\n"@ + audio_media_lines(p.audio_tracks@, p.session@, org)
        + stream_entries(p.video_tracks@, p.audio_tracks@, p.session@, org)
}

/// Whether every video bitrate plus every audio bitrate fits in `u32`.
pub open spec fn bandwidths_fit(p: SessionPlaylist) -> bool {
    forall|i: int, j: int|
        0 <= i < p.video_tracks@.len() && 0 <= j < p.audio_tracks@.len() ==> #[trigger] p.video_tracks@[i].bitrate
            + #[trigger] p.audio_tracks@[j].bitrate <= u32::MAX
}

impl SessionPlaylist {
    /// The master playlist of the session for the organization with ULID
    /// value `organization_id`: one media line per audio track, then one
    /// stream entry per video track and audio track.
    pub fn to_m3u8(&self, organization_id: u128) -> (r: String)
        requires
            bandwidths_fit(*self),
        ensures
            r@ == session_m3u8(*self, ulid_text(organization_id)),
    {
        let org = ulid_text_of(organization_id);
        let mut m3u8 = String::from_str("#EXTM3U\n#EXT-X-INDEPENDENT-SEGMENTS\n");
        let ghost head = m3u8@;
        let mut i: usize = 0;
        while i < self.audio_tracks.len()
            invariant
                i <= self.audio_tracks.len(),
                m3u8@ == head + audio_media_lines(self.audio_tracks@.take(i as int), self.session@, org@),
            decreases self.audio_tracks.len() - i,
        {
            let t = &self.audio_tracks[i];
            let mut line = String::from_str("#EXT-X-MEDIA:TYPE=AUDIO,GROUP-ID=\"");
            line.append(t.name.as_str());
            line.append("\",DEFAULT=YES,AUTOSELECT=YES,NAME=\"");
            line.append(t.name.as_str());
            line.append("\",CHANNELS=\"");
            push_decimal(&mut line, t.other.channels as u64);
            line.append("\",URI=\"/");
            line.append(org.as_str());
            line.append("/");
            line.append(self.session.as_str());
            line.append("/");
            line.append(t.name.as_str());
            line.append(".m3u8\"\n");
            assert(line@ == audio_media_line(*t, self.session@, org@));
            let ghost before = m3u8@;
            m3u8.append(line.as_str());
            proof {
                assert(self.audio_tracks@.take(i + 1).drop_last() == self.audio_tracks@.take(i as int));
                assert(m3u8@ =~= head + audio_media_lines(self.audio_tracks@.take(i + 1), self.session@, org@));
            }
            i = i + 1;
        }
        assert(self.audio_tracks@.take(i as int) == self.audio_tracks@);
        let ghost mid = m3u8@;
        let mut v: usize = 0;
        while v < self.video_tracks.len()
            invariant
                v <= self.video_tracks.len(),
                bandwidths_fit(*self),
                m3u8@ == mid + stream_entries(self.video_tracks@.take(v as int), self.audio_tracks@, self.session@, org@),
            decreases self.video_tracks.len() - v,
        {
            let video = &self.video_tracks[v];
            let ghost vbase = m3u8@;
            let mut a: usize = 0;
            while a < self.audio_tracks.len()
                invariant
                    v < self.video_tracks.len(),
                    *video == self.video_tracks@[v as int],
                    a <= self.audio_tracks.len(),
                    bandwidths_fit(*self),
                    m3u8@ == vbase + video_stream_entries(*video, self.audio_tracks@.take(a as int), self.session@, org@),
                decreases self.audio_tracks.len() - a,
            {
                let audio = &self.audio_tracks[a];
                assert(video.bitrate + audio.bitrate <= u32::MAX) by {
                    assert(self.video_tracks@[v as int].bitrate + self.audio_tracks@[a as int].bitrate <= u32::MAX);
                }
                let mut entry = String::from_str("#EXT-X-STREAM-INF:BANDWIDTH=");
                push_decimal(&mut entry, (video.bitrate + audio.bitrate) as u64);
                entry.append(",CODECS=\"");
                entry.append(video.codec.as_str());
                entry.append(",");
                entry.append(audio.codec.as_str());
                entry.append("\",RESOLUTION=");
                push_decimal(&mut entry, video.other.width as u64);
                entry.append("x");
                push_decimal(&mut entry, video.other.height as u64);
                entry.append(",FRAME-RATE=");
                push_decimal(&mut entry, video.other.frame_rate as u64);
                entry.append(",AUDIO=\"");
                entry.append(audio.name.as_str());
                entry.append("\"\n/");
                entry.append(org.as_str());
                entry.append("/");
                entry.append(self.session.as_str());
                entry.append("/");
                entry.append(video.name.as_str());
                entry.append(".m3u8\n");
                assert(entry@ == stream_entry(*video, *audio, self.session@, org@));
                m3u8.append(entry.as_str());
                proof {
                    assert(self.audio_tracks@.take(a + 1).drop_last() == self.audio_tracks@.take(a as int));
                    assert(m3u8@ =~= vbase + video_stream_entries(*video, self.audio_tracks@.take(a + 1), self.session@, org@));
                }
                a = a + 1;
            }
            proof {
                assert(self.audio_tracks@.take(a as int) == self.audio_tracks@);
                assert(self.video_tracks@.take(v + 1).drop_last() == self.video_tracks@.take(v as int));
                assert(m3u8@ =~= mid + stream_entries(self.video_tracks@.take(v + 1), self.audio_tracks@, self.session@, org@));
            }
            v = v + 1;
        }
        assert(self.video_tracks@.take(v as int) == self.video_tracks@);
        assert(m3u8@ =~= session_m3u8(*self, org@));
        m3u8
    }
}


/// Whether a flag is off; flags that are off are left out when a playlist is
/// written as JSON.
pub fn is_false(b: &bool) -> (r: bool)
    ensures
        r == !*b,
{
    !*b
}

} // verus!
