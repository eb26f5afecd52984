//! The HLS text of a rendition playlist, as the server sends it to players.

use vstd::prelude::*;

use crate::text::{decimal, has_prefix, push_decimal};
use crate::types::{
    RenditionPlaylist, RenditionPlaylistRendition, RenditionPlaylistSegment,
    RenditionPlaylistSegmentPart, ulid_text, ulid_text_of,
};
use vstd::string::StringExecFns;

verus! {

/// The written durations of one segment: each part's and the segment's own,
/// in seconds with three decimals.
#[derive(Debug, Clone)]
pub struct SegmentDurations {
    pub parts: Vec<String>,
    pub segment: String,
}

/// The context a rendition playlist is written for: the organization's ULID
/// text, the room's ULID text for a live room (none for a recording), and
/// the recording prefix.
pub struct M3u8Context {
    pub org: Seq<char>,
    pub room: Option<Seq<char>>,
    pub dvr: Option<Seq<char>>,
}

/// The text of an optional string.
pub open spec fn opt_view(o: Option<String>) -> Option<Seq<char>> {
    match o {
        Some(x) => Some(x@),
        None => None,
    }
}

/// `text` when `cond` holds, nothing otherwise.
pub open spec fn when(cond: bool, text: Seq<char>) -> Seq<char> {
    if cond {
        text
    } else {
        Seq::empty()
    }
}

/// The lines before the segments.
pub open spec fn header_text(p: RenditionPlaylist, c: M3u8Context) -> Seq<char> {
    let live = c.room is Some;
    let dvr = c.dvr is Some;
    "#EXTM3U\n"@ + (if !live {
        "#EXT-X-VERSION:6\n"@
    } else if dvr {
        "#EXT-X-VERSION:9\n"@
    } else {
        "#EXT-X-VERSION:7\n"@
    }) + "#EXT-X-TARGETDURATION:5\n"@ + (if !live {
        "#EXT-X-PLAYLIST-TYPE:VOD\n"@
    } else if dvr {
        "#EXT-X-PLAYLIST-TYPE:EVENT\n"@
    } else {
        Seq::empty()
    }) + "#EXT-X-MEDIA-SEQUENCE:"@ + decimal(p.msn as nat) + "\n#EXT-DISCONTINUITY-SEQUENCE:0\n"@
        + when(
        live,
        "#EXT-X-PART-INF:PART-TARGET=0.250\n"@ + when(
            !p.finished,
            "#EXT-X-SERVER-CONTROL:PART-HOLD-BACK=0.750,CAN-BLOCK-RELOAD=YES"@ + if dvr {
                ",SKIP-UNTIL=15\n"@
            } else {
                "\n"@
            },
        ),
    ) + when(dvr, "#EXT-X-SKIP:SKIPPED-SEGMENTS="@ + decimal(p.skip_segments as nat) + "\n"@)
        + match c.room {
        Some(room) => "#EXT-X-MAP:URI=\"/"@ + c.org + "/"@ + room + "/"@ + p.init_segment_id@
            + ".mp4\"\n"@,
        None => "#EXT-X-MAP:URI=\""@ + c.dvr.unwrap() + "/"@ + p.init_segment_id@ + "\"\n"@,
    }
}

/// The line of one part of a live room.
pub open spec fn part_line(
    part: RenditionPlaylistSegmentPart,
    duration: Seq<char>,
    c: M3u8Context,
) -> Seq<char> {
    "#EXT-X-PART:DURATION="@ + duration + ",URI=\"/"@ + c.org + "/"@ + c.room.unwrap() + "/"@
        + part.id@ + ".mp4\""@ + if part.independent {
        ",INDEPENDENT=YES\n"@
    } else {
        "\n"@
    }
}

/// The lines of the first `n` parts of a segment.
pub open spec fn part_lines(
    parts: Seq<RenditionPlaylistSegmentPart>,
    durations: Seq<String>,
    c: M3u8Context,
    n: nat,
) -> Seq<char>
    decreases n,
{
    if n == 0 {
        Seq::empty()
    } else {
        part_lines(parts, durations, c, (n - 1) as nat) + part_line(
            parts[n - 1],
            durations[n - 1]@,
            c,
        )
    }
}

/// The lines that close one segment: its recording tag, duration and address
/// when it has an id; its duration and recorded address when it has only a
/// recording tag and the rendition is recorded; nothing otherwise.
pub open spec fn segment_tail(seg: RenditionPlaylistSegment, duration: Seq<char>, c: M3u8Context) -> Seq<char> {
    match seg.id {
        Some(id) => when(
            c.dvr is Some && seg.dvr_tag is Some,
            "#EXT-X-SCUFFLE-DVR:URI=\""@ + c.dvr.unwrap() + "/"@ + seg.dvr_tag.unwrap()@ + "\"\n"@,
        ) + "#EXTINF:"@ + duration + ",\n/"@ + c.org + "/"@ + c.room.unwrap() + "/"@ + id@
            + ".mp4\n"@,
        None => when(
            seg.dvr_tag is Some && c.dvr is Some,
            "#EXTINF:"@ + duration + ",\n"@ + c.dvr.unwrap() + "/"@ + seg.dvr_tag.unwrap()@ + "\n"@,
        ),
    }
}

/// The lines of one segment.
pub open spec fn segment_text(
    seg: RenditionPlaylistSegment,
    d: SegmentDurations,
    c: M3u8Context,
) -> Seq<char> {
    part_lines(seg.parts@, d.parts@, c, seg.parts@.len()) + segment_tail(seg, d.segment@, c)
}

/// The lines of the first `n` segments.
pub open spec fn segments_text(
    segs: Seq<RenditionPlaylistSegment>,
    durs: Seq<SegmentDurations>,
    c: M3u8Context,
    n: nat,
) -> Seq<char>
    decreases n,
{
    if n == 0 {
        Seq::empty()
    } else {
        segments_text(segs, durs, c, (n - 1) as nat) + segment_text(segs[n - 1], durs[n - 1], c)
    }
}

/// The hints for the first `n` parts announced ahead, numbered from `first`.
pub open spec fn hint_lines(ids: Seq<String>, first: nat, c: M3u8Context, n: nat) -> Seq<char>
    decreases n,
{
    if n == 0 {
        Seq::empty()
    } else {
        hint_lines(ids, first, c, (n - 1) as nat) + "#EXT-X-PRELOAD-HINT:TYPE=PART,SCUFFLE-PART="@
            + decimal(first + (n - 1) as nat) + ",URI=\"/"@ + c.org + "/"@ + c.room.unwrap() + "/"@
            + ids[n - 1]@ + ".mp4\"\n"@
    }
}

/// The reports of the first `n` other renditions.
pub open spec fn report_lines(rs: Seq<RenditionPlaylistRendition>, n: nat) -> Seq<char>
    decreases n,
{
    if n == 0 {
        Seq::empty()
    } else {
        report_lines(rs, (n - 1) as nat) + "#EXT-X-RENDITION-REPORT:URI=\"./"@ + rs[n - 1].name@
            + ".m3u8\",LAST-MSN="@ + decimal(rs[n - 1].last_segment_idx as nat) + ",LAST-PART="@
            + decimal(rs[n - 1].last_segment_part_idx as nat) + "\n"@
    }
}

/// The number of the first part announced ahead.
pub open spec fn first_hint_number(p: RenditionPlaylist) -> nat {
    (p.last_pre_fetch_part_idx + 1 - p.pre_fetch_part_ids@.len()) as nat
}

/// The lines after the segments: the end mark of a finished playlist, or the
/// announced parts and the other renditions' reports of a live room.
pub open spec fn footer_text(p: RenditionPlaylist, c: M3u8Context) -> Seq<char> {
    if p.finished {
        "#EXT-X-ENDLIST\n"@
    } else if c.room is Some {
        hint_lines(p.pre_fetch_part_ids@, first_hint_number(p), c, p.pre_fetch_part_ids@.len())
            + report_lines(p.renditions@, p.renditions@.len())
    } else {
        Seq::empty()
    }
}

/// The context for the given organization and room.
pub open spec fn context(p: RenditionPlaylist, organization_id: u128, room_id: Option<u128>) -> M3u8Context {
    M3u8Context {
        org: ulid_text(organization_id),
        room: match room_id {
            Some(r) => Some(ulid_text(r)),
            None => None,
        },
        dvr: opt_view(p.dvr_prefix),
    }
}

/// The HLS text of a rendition playlist.
pub open spec fn rendition_m3u8(
    p: RenditionPlaylist,
    durs: Seq<SegmentDurations>,
    organization_id: u128,
    room_id: Option<u128>,
) -> Seq<char> {
    let c = context(p, organization_id, room_id);
    header_text(p, c) + segments_text(p.segments@, durs, c, p.segments@.len()) + footer_text(p, c)
}

/// Whether the written durations match the segments and their parts.
pub open spec fn durations_match(p: RenditionPlaylist, durs: Seq<SegmentDurations>) -> bool {
    &&& durs.len() == p.segments@.len()
    &&& forall|k: int| 0 <= k < durs.len() ==> (#[trigger] durs[k]).parts@.len() == p.segments@[k].parts@.len()
}

/// Whether the playlist can be written for the given room: a recording has
/// a recording prefix and neither parts nor segment ids; the number of the
/// first announced part is within `u32`.
pub open spec fn m3u8_writable(p: RenditionPlaylist, room_id: Option<u128>) -> bool {
    &&& room_id is None ==> p.dvr_prefix is Some
    &&& room_id is None ==> forall|k: int|
        0 <= k < p.segments@.len() ==> (#[trigger] p.segments@[k]).parts@.len() == 0
            && p.segments@[k].id is None
    &&& p.pre_fetch_part_ids@.len() <= u32::MAX
    &&& p.last_pre_fetch_part_idx < u32::MAX
    &&& p.pre_fetch_part_ids@.len() <= p.last_pre_fetch_part_idx + 1
}

/// The first lines of a rendition playlist's header, up to its playlist
/// type line (none for a live room without a recording prefix).
proof fn lemma_header_starts(p: RenditionPlaylist, c: M3u8Context)
    ensures
        has_prefix(
            header_text(p, c),
            "#EXTM3U\n"@ + (if c.room is None {
                "#EXT-X-VERSION:6\n"@
            } else if c.dvr is Some {
                "#EXT-X-VERSION:9\n"@
            } else {
                "#EXT-X-VERSION:7\n"@
            }) + "#EXT-X-TARGETDURATION:5\n"@ + (if c.room is None {
                "#EXT-X-PLAYLIST-TYPE:VOD\n"@
            } else if c.dvr is Some {
                "#EXT-X-PLAYLIST-TYPE:EVENT\n"@
            } else {
                Seq::empty()
            }) + "#EXT-X-MEDIA-SEQUENCE:"@,
        ),
{
    let pre = "#EXTM3U\n"@ + (if c.room is None {
        "#EXT-X-VERSION:6\n"@
    } else if c.dvr is Some {
        "#EXT-X-VERSION:9\n"@
    } else {
        "#EXT-X-VERSION:7\n"@
    }) + "#EXT-X-TARGETDURATION:5\n"@ + (if c.room is None {
        "#EXT-X-PLAYLIST-TYPE:VOD\n"@
    } else if c.dvr is Some {
        "#EXT-X-PLAYLIST-TYPE:EVENT\n"@
    } else {
        Seq::empty()
    }) + "#EXT-X-MEDIA-SEQUENCE:"@;
    let h = header_text(p, c);
    assert(h.take(pre.len() as int) =~= pre);
}

/// The playlist type a rendition playlist declares: a recording (no room)
/// is an on-demand playlist (`VOD`, version 6); a live room with a
/// recording prefix is an event playlist (`EVENT`, version 9); a live room
/// without one declares no type (version 7) and goes straight on to its
/// media sequence. So `VOD` is declared only for a recording.
pub proof fn law_playlist_type_follows_room(
    p: RenditionPlaylist,
    durs: Seq<SegmentDurations>,
    organization_id: u128,
    room_id: Option<u128>,
)
    ensures
        room_id is None ==> has_prefix(
            rendition_m3u8(p, durs, organization_id, room_id),
            "#EXTM3U\n"@ + "#EXT-X-VERSION:6\n"@ + "#EXT-X-TARGETDURATION:5\n"@ + "#EXT-X-PLAYLIST-TYPE:VOD\n"@,
        ),
        room_id is Some && p.dvr_prefix is Some ==> has_prefix(
            rendition_m3u8(p, durs, organization_id, room_id),
            "#EXTM3U\n"@ + "#EXT-X-VERSION:9\n"@ + "#EXT-X-TARGETDURATION:5\n"@ + "#EXT-X-PLAYLIST-TYPE:EVENT\n"@,
        ),
        room_id is Some && p.dvr_prefix is None ==> has_prefix(
            rendition_m3u8(p, durs, organization_id, room_id),
            "#EXTM3U\n"@ + "#EXT-X-VERSION:7\n"@ + "#EXT-X-TARGETDURATION:5\n"@ + "#EXT-X-MEDIA-SEQUENCE:"@,
        ),
{
    let c = context(p, organization_id, room_id);
    let h = header_text(p, c);
    lemma_header_starts(p, c);
    let text = rendition_m3u8(p, durs, organization_id, room_id);
    assert(text == h + segments_text(p.segments@, durs, c, p.segments@.len()) + footer_text(p, c));
    let full = "#EXTM3U\n"@ + (if c.room is None {
        "#EXT-X-VERSION:6\n"@
    } else if c.dvr is Some {
        "#EXT-X-VERSION:9\n"@
    } else {
        "#EXT-X-VERSION:7\n"@
    }) + "#EXT-X-TARGETDURATION:5\n"@ + (if c.room is None {
        "#EXT-X-PLAYLIST-TYPE:VOD\n"@
    } else if c.dvr is Some {
        "#EXT-X-PLAYLIST-TYPE:EVENT\n"@
    } else {
        Seq::empty()
    }) + "#EXT-X-MEDIA-SEQUENCE:"@;
    assert(text.take(full.len() as int) =~= h.take(full.len() as int));
    if room_id is None {
        let want = "#EXTM3U\n"@ + "#EXT-X-VERSION:6\n"@ + "#EXT-X-TARGETDURATION:5\n"@ + "#EXT-X-PLAYLIST-TYPE:VOD\n"@;
        assert(full == want + "#EXT-X-MEDIA-SEQUENCE:"@);
        assert(text.take(want.len() as int) =~= want);
    } else if p.dvr_prefix is Some {
        let want = "#EXTM3U\n"@ + "#EXT-X-VERSION:9\n"@ + "#EXT-X-TARGETDURATION:5\n"@ + "#EXT-X-PLAYLIST-TYPE:EVENT\n"@;
        assert(full == want + "#EXT-X-MEDIA-SEQUENCE:"@);
        assert(text.take(want.len() as int) =~= want);
    } else {
        let want = "#EXTM3U\n"@ + "#EXT-X-VERSION:7\n"@ + "#EXT-X-TARGETDURATION:5\n"@ + "#EXT-X-MEDIA-SEQUENCE:"@;
        assert(full =~= want);
        assert(text.take(want.len() as int) =~= want);
    }
}

/// The text of an optional address prefix.
fn opt_text(o: &Option<String>) -> (r: Option<String>)
    ensures
        match (r, *o) {
            (Some(a), Some(b)) => a@ == b@,
            (None, None) => true,
            _ => false,
        },
{
    match o {
        Some(s) => Some(s.clone()),
        None => None,
    }
}

impl RenditionPlaylist {
    /// The lines before the segments.
    fn header(&self, org: &String, room: &Option<String>, dvr: &Option<String>) -> (r: String)
        requires
            room is None ==> dvr is Some,
        ensures
            r@ == header_text(*self, M3u8Context { org: org@, room: opt_view(*room), dvr: opt_view(*dvr) }),
    {
        let ghost c = M3u8Context { org: org@, room: opt_view(*room), dvr: opt_view(*dvr) };
        let live = room.is_some();
        let has_dvr = dvr.is_some();
        let mut m = String::from_str("#EXTM3U\n");
        if !live {
            m.append("#EXT-X-VERSION:6\n");
        } else if has_dvr {
            m.append("#EXT-X-VERSION:9\n");
        } else {
            m.append("#EXT-X-VERSION:7\n");
        }
        m.append("#EXT-X-TARGETDURATION:5\n");
        let ghost before_type = m@;
        if !live {
            m.append("#EXT-X-PLAYLIST-TYPE:VOD\n");
        } else if has_dvr {
            m.append("#EXT-X-PLAYLIST-TYPE:EVENT\n");
        }
        assert(m@ =~= before_type + (if !live {
            "#EXT-X-PLAYLIST-TYPE:VOD\n"@
        } else if has_dvr {
            "#EXT-X-PLAYLIST-TYPE:EVENT\n"@
        } else {
            Seq::empty()
        }));
        m.append("#EXT-X-MEDIA-SEQUENCE:");
        push_decimal(&mut m, self.msn as u64);
        m.append("\n#EXT-DISCONTINUITY-SEQUENCE:0\n");
        let ghost before_live = m@;
        if live {
            m.append("#EXT-X-PART-INF:PART-TARGET=0.250\n");
            if !self.finished {
                m.append("#EXT-X-SERVER-CONTROL:PART-HOLD-BACK=0.750,CAN-BLOCK-RELOAD=YES");
                if has_dvr {
                    m.append(",SKIP-UNTIL=15\n");
                } else {
                    m.append("\n");
                }
            }
        }
        assert(m@ =~= before_live + when(
            live,
            "#EXT-X-PART-INF:PART-TARGET=0.250\n"@ + when(
                !self.finished,
                "#EXT-X-SERVER-CONTROL:PART-HOLD-BACK=0.750,CAN-BLOCK-RELOAD=YES"@ + if has_dvr {
                    ",SKIP-UNTIL=15\n"@
                } else {
                    "\n"@
                },
            ),
        ));
        let ghost before_skip = m@;
        if has_dvr {
            m.append("#EXT-X-SKIP:SKIPPED-SEGMENTS=");
            push_decimal(&mut m, self.skip_segments as u64);
            m.append("\n");
        }
        assert(m@ =~= before_skip + when(
            has_dvr,
            "#EXT-X-SKIP:SKIPPED-SEGMENTS="@ + decimal(self.skip_segments as nat) + "\n"@,
        ));
        let ghost before_map = m@;
        match room {
            Some(r) => {
                m.append("#EXT-X-MAP:URI=\"/");
                m.append(org.as_str());
                m.append("/");
                m.append(r.as_str());
                m.append("/");
                m.append(self.init_segment_id.as_str());
                m.append(".mp4\"\n");
            },
            None => {
                let d = dvr.as_ref().unwrap();
                m.append("#EXT-X-MAP:URI=\"");
                m.append(d.as_str());
                m.append("/");
                m.append(self.init_segment_id.as_str());
                m.append("\"\n");
            },
        }
        assert(m@ =~= before_map + match c.room {
            Some(room) => "#EXT-X-MAP:URI=\"/"@ + c.org + "/"@ + room + "/"@ + self.init_segment_id@
                + ".mp4\"\n"@,
            None => "#EXT-X-MAP:URI=\""@ + c.dvr.unwrap() + "/"@ + self.init_segment_id@ + "\"\n"@,
        });
        assert(m@ =~= header_text(*self, c));
        m
    }

    /// The lines of the segments, for the context of `org`, `room` and `dvr`.
    fn segment_lines(
        &self,
        durs: &Vec<SegmentDurations>,
        org: &String,
        room: &Option<String>,
        dvr: &Option<String>,
    ) -> (r: String)
        requires
            durations_match(*self, durs@),
            room is None ==> forall|k: int|
                0 <= k < self.segments@.len() ==> (#[trigger] self.segments@[k]).parts@.len() == 0
                    && self.segments@[k].id is None,
        ensures
            r@ == segments_text(
                self.segments@,
                durs@,
                M3u8Context { org: org@, room: opt_view(*room), dvr: opt_view(*dvr) },
                self.segments@.len(),
            ),
    {
        let ghost c = M3u8Context { org: org@, room: opt_view(*room), dvr: opt_view(*dvr) };
        let mut m = String::new();
        let mut k: usize = 0;
        while k < self.segments.len()
            invariant
                k <= self.segments@.len(),
                durations_match(*self, durs@),
                c == (M3u8Context { org: org@, room: opt_view(*room), dvr: opt_view(*dvr) }),
                room is None ==> forall|k: int|
                    0 <= k < self.segments@.len() ==> (#[trigger] self.segments@[k]).parts@.len()
                        == 0 && self.segments@[k].id is None,
                m@ == segments_text(self.segments@, durs@, c, k as nat),
            decreases self.segments.len() - k,
        {
            let seg = &self.segments[k];
            let d = &durs[k];
            assert(d.parts@.len() == seg.parts@.len());
            let ghost base = m@;
            let mut i: usize = 0;
            while i < seg.parts.len()
                invariant
                    i <= seg.parts@.len(),
                    d.parts@.len() == seg.parts@.len(),
                    room is None ==> seg.parts@.len() == 0,
                    c == (M3u8Context { org: org@, room: opt_view(*room), dvr: opt_view(*dvr) }),
                    m@ == base + part_lines(seg.parts@, d.parts@, c, i as nat),
                decreases seg.parts.len() - i,
            {
                let part = &seg.parts[i];
                let r = room.as_ref().unwrap();
                let mut line = String::from_str("#EXT-X-PART:DURATION=");
                line.append(d.parts[i].as_str());
                line.append(",URI=\"/");
                line.append(org.as_str());
                line.append("/");
                line.append(r.as_str());
                line.append("/");
                line.append(part.id.as_str());
                line.append(".mp4\"");
                if part.independent {
                    line.append(",INDEPENDENT=YES\n");
                } else {
                    line.append("\n");
                }
                assert(line@ == part_line(seg.parts@[i as int], d.parts@[i as int]@, c));
                m.append(line.as_str());
                assert(m@ =~= base + part_lines(seg.parts@, d.parts@, c, (i + 1) as nat));
                i = i + 1;
            }
            let ghost mid = m@;
            let mut tail = String::new();
            match &seg.id {
                Some(id) => {
                    let r = room.as_ref().unwrap();
                    match (dvr, &seg.dvr_tag) {
                        (Some(prefix), Some(tag)) => {
                            tail.append("#EXT-X-SCUFFLE-DVR:URI=\"");
                            tail.append(prefix.as_str());
                            tail.append("/");
                            tail.append(tag.as_str());
                            tail.append("\"\n");
                        },
                        _ => {},
                    }
                    let ghost t0 = tail@;
                    tail.append("#EXTINF:");
                    tail.append(d.segment.as_str());
                    tail.append(",\n/");
                    tail.append(org.as_str());
                    tail.append("/");
                    tail.append(r.as_str());
                    tail.append("/");
                    tail.append(id.as_str());
                    tail.append(".mp4\n");
                    assert(t0 =~= when(
                        c.dvr is Some && seg.dvr_tag is Some,
                        "#EXT-X-SCUFFLE-DVR:URI=\""@ + c.dvr.unwrap() + "/"@ + seg.dvr_tag.unwrap()@
                            + "\"\n"@,
                    ));
                },
                None => {
                    match (&seg.dvr_tag, dvr) {
                        (Some(tag), Some(prefix)) => {
                            tail.append("#EXTINF:");
                            tail.append(d.segment.as_str());
                            tail.append(",\n");
                            tail.append(prefix.as_str());
                            tail.append("/");
                            tail.append(tag.as_str());
                            tail.append("\n");
                        },
                        _ => {},
                    }
                },
            }
            assert(tail@ =~= segment_tail(*seg, d.segment@, c));
            m.append(tail.as_str());
            assert(m@ =~= segments_text(self.segments@, durs@, c, (k + 1) as nat));
            k = k + 1;
        }
        m
    }

    /// The lines after the segments.
    fn footer(&self, org: &String, room: &Option<String>, dvr: &Option<String>) -> (r: String)
        requires
            self.pre_fetch_part_ids@.len() <= u32::MAX,
            self.last_pre_fetch_part_idx < u32::MAX,
            self.pre_fetch_part_ids@.len() <= self.last_pre_fetch_part_idx + 1,
        ensures
            r@ == footer_text(*self, M3u8Context { org: org@, room: opt_view(*room), dvr: opt_view(*dvr) }),
    {
        let ghost c = M3u8Context { org: org@, room: opt_view(*room), dvr: opt_view(*dvr) };
        let n = self.pre_fetch_part_ids.len();
        let first = self.last_pre_fetch_part_idx + 1 - n as u32;
        if self.finished {
            return String::from_str("#EXT-X-ENDLIST\n");
        }
        let mut m = String::new();
        match room {
            Some(r) => {
                let mut i: usize = 0;
                while i < n
                    invariant
                        n == self.pre_fetch_part_ids@.len(),
                        i <= n,
                        first == first_hint_number(*self),
                        first + n <= self.last_pre_fetch_part_idx + 1,
                        self.last_pre_fetch_part_idx < u32::MAX,
                        c == (M3u8Context { org: org@, room: opt_view(*room), dvr: opt_view(*dvr) }),
                        *room == Some(*r),
                        m@ == hint_lines(self.pre_fetch_part_ids@, first as nat, c, i as nat),
                    decreases n - i,
                {
                    let mut line = String::from_str("#EXT-X-PRELOAD-HINT:TYPE=PART,SCUFFLE-PART=");
                    push_decimal(&mut line, (i as u32 + first) as u64);
                    line.append(",URI=\"/");
                    line.append(org.as_str());
                    line.append("/");
                    line.append(r.as_str());
                    line.append("/");
                    line.append(self.pre_fetch_part_ids[i].as_str());
                    line.append(".mp4\"\n");
                    m.append(line.as_str());
                    assert(m@ =~= hint_lines(self.pre_fetch_part_ids@, first as nat, c, (i + 1) as nat));
                    i = i + 1;
                }
                let ghost hints = m@;
                let mut j: usize = 0;
                while j < self.renditions.len()
                    invariant
                        j <= self.renditions@.len(),
                        m@ == hints + report_lines(self.renditions@, j as nat),
                    decreases self.renditions.len() - j,
                {
                    let rend = &self.renditions[j];
                    let mut line = String::from_str("#EXT-X-RENDITION-REPORT:URI=\"./");
                    line.append(rend.name.as_str());
                    line.append(".m3u8\",LAST-MSN=");
                    push_decimal(&mut line, rend.last_segment_idx as u64);
                    line.append(",LAST-PART=");
                    push_decimal(&mut line, rend.last_segment_part_idx as u64);
                    line.append("\n");
                    m.append(line.as_str());
                    assert(m@ =~= hints + report_lines(self.renditions@, (j + 1) as nat));
                    j = j + 1;
                }
            },
            None => {},
        }
        m
    }

    /// The HLS text of the playlist, for the organization with ULID value
    /// `organization_id` and, for a live room, the room with ULID value
    /// `room_id` (none for a recording). `durations` holds the written
    /// durations of each segment and of its parts.
    pub fn to_m3u8(
        &self,
        durations: &Vec<SegmentDurations>,
        organization_id: u128,
        room_id: Option<u128>,
    ) -> (r: String)
        requires
            durations_match(*self, durations@),
            m3u8_writable(*self, room_id),
        ensures
            r@ == rendition_m3u8(*self, durations@, organization_id, room_id),
    {
        let org = ulid_text_of(organization_id);
        let room = match room_id {
            Some(id) => Some(ulid_text_of(id)),
            None => None,
        };
        let dvr = opt_text(&self.dvr_prefix);
        let ghost c = context(*self, organization_id, room_id);
        assert(opt_view(room) == c.room);
        assert(opt_view(dvr) == c.dvr);
        let mut m = self.header(&org, &room, &dvr);
        let body = self.segment_lines(durations, &org, &room, &dvr);
        m.append(body.as_str());
        let tail = self.footer(&org, &room, &dvr);
        m.append(tail.as_str());
        m
    }
}

} // verus!
