//! Media playlists: segments, parts, preload hints and rendition reports.
//!
//! Durations are kept as the float texts written in the playlist (texts that
//! std's `str::parse::<f64>` accepts); `None` stands for a duration of zero.

use vstd::prelude::*;

use crate::hls::attributes::Attributes;
use crate::hls::tags::{tag_views, Tag, TagView};
use crate::text::{
    chars_eq, chars_of, clone_opt, is_float, is_float_text, lemma_skip_step, parse_u32,
    unsigned_in_range,
};

verus! {

/// A part of a segment (`#EXT-X-PART`).
#[derive(Debug, Clone)]
pub struct Part {
    pub duration: String,
    pub uri: String,
    pub independent: bool,
}

/// A media segment.
#[derive(Debug, Clone)]
pub struct Segment {
    pub discontinuity: bool,
    pub map: Option<String>,
    pub sn: u32,
    pub duration: Option<String>,
    pub url: String,
    pub program_date_time: Option<String>,
    pub gap: bool,
    pub parts: Vec<Part>,
}

/// `#EXT-X-SERVER-CONTROL` settings.
#[derive(Debug, Clone)]
pub struct ServerControl {
    pub can_skip_until: Option<String>,
    pub hold_back: Option<String>,
    pub part_hold_back: Option<String>,
    pub can_block_reload: bool,
}

/// A `#EXT-X-PRELOAD-HINT`.
#[derive(Debug, Clone)]
pub struct PreloadHint {
    pub hint_type: String,
    pub uri: String,
}

/// A `#EXT-X-RENDITION-REPORT`.
#[derive(Debug, Clone)]
pub struct RenditionReport {
    pub uri: String,
    pub last_msn: u32,
    pub last_part: u32,
}

/// A media playlist.
#[derive(Debug, Clone)]
pub struct MediaPlaylist {
    pub version: u8,
    pub target_duration: u32,
    pub part_target_duration: Option<String>,
    pub media_sequence: u32,
    pub discontinuity_sequence: u32,
    pub end_list: bool,
    pub server_control: Option<ServerControl>,
    pub segments: Vec<Segment>,
    pub preload_hint: Vec<PreloadHint>,
    pub rendition_reports: Vec<RenditionReport>,
}

/// What a part holds.
pub struct PartView {
    pub duration: Seq<char>,
    pub uri: Seq<char>,
    pub independent: bool,
}

/// What a segment holds.
pub struct SegmentView {
    pub discontinuity: bool,
    pub map: Option<Seq<char>>,
    pub sn: u32,
    pub duration: Option<Seq<char>>,
    pub url: Seq<char>,
    pub program_date_time: Option<Seq<char>>,
    pub gap: bool,
    pub parts: Seq<PartView>,
}

/// What server control settings hold.
pub struct ServerControlView {
    pub can_skip_until: Option<Seq<char>>,
    pub hold_back: Option<Seq<char>>,
    pub part_hold_back: Option<Seq<char>>,
    pub can_block_reload: bool,
}

/// What a preload hint holds.
pub struct PreloadHintView {
    pub hint_type: Seq<char>,
    pub uri: Seq<char>,
}

/// What a rendition report holds.
pub struct RenditionReportView {
    pub uri: Seq<char>,
    pub last_msn: u32,
    pub last_part: u32,
}

/// What a media playlist holds.
pub struct MediaPlaylistView {
    pub version: u8,
    pub target_duration: u32,
    pub part_target_duration: Option<Seq<char>>,
    pub media_sequence: u32,
    pub discontinuity_sequence: u32,
    pub end_list: bool,
    pub server_control: Option<ServerControlView>,
    pub segments: Seq<SegmentView>,
    pub preload_hint: Seq<PreloadHintView>,
    pub rendition_reports: Seq<RenditionReportView>,
}

/// The view of an optional string.
pub open spec fn opt_str(o: Option<String>) -> Option<Seq<char>> {
    match o {
        Some(s) => Some(s@),
        None => None,
    }
}

impl View for Part {
    type V = PartView;

    open spec fn view(&self) -> PartView {
        PartView { duration: self.duration@, uri: self.uri@, independent: self.independent }
    }
}

/// The views of a sequence of parts.
pub open spec fn part_views(p: Seq<Part>) -> Seq<PartView> {
    p.map_values(|x: Part| x@)
}

impl View for Segment {
    type V = SegmentView;

    open spec fn view(&self) -> SegmentView {
        SegmentView {
            discontinuity: self.discontinuity,
            map: opt_str(self.map),
            sn: self.sn,
            duration: opt_str(self.duration),
            url: self.url@,
            program_date_time: opt_str(self.program_date_time),
            gap: self.gap,
            parts: part_views(self.parts@),
        }
    }
}

/// The views of a sequence of segments.
pub open spec fn segment_views(s: Seq<Segment>) -> Seq<SegmentView> {
    s.map_values(|x: Segment| x@)
}

impl View for ServerControl {
    type V = ServerControlView;

    open spec fn view(&self) -> ServerControlView {
        ServerControlView {
            can_skip_until: opt_str(self.can_skip_until),
            hold_back: opt_str(self.hold_back),
            part_hold_back: opt_str(self.part_hold_back),
            can_block_reload: self.can_block_reload,
        }
    }
}

impl View for PreloadHint {
    type V = PreloadHintView;

    open spec fn view(&self) -> PreloadHintView {
        PreloadHintView { hint_type: self.hint_type@, uri: self.uri@ }
    }
}

impl View for RenditionReport {
    type V = RenditionReportView;

    open spec fn view(&self) -> RenditionReportView {
        RenditionReportView { uri: self.uri@, last_msn: self.last_msn, last_part: self.last_part }
    }
}

/// The views of a sequence of preload hints.
pub open spec fn hint_views(s: Seq<PreloadHint>) -> Seq<PreloadHintView> {
    s.map_values(|x: PreloadHint| x@)
}

/// The views of a sequence of rendition reports.
pub open spec fn report_views(s: Seq<RenditionReport>) -> Seq<RenditionReportView> {
    s.map_values(|x: RenditionReport| x@)
}

impl View for MediaPlaylist {
    type V = MediaPlaylistView;

    open spec fn view(&self) -> MediaPlaylistView {
        MediaPlaylistView {
            version: self.version,
            target_duration: self.target_duration,
            part_target_duration: opt_str(self.part_target_duration),
            media_sequence: self.media_sequence,
            discontinuity_sequence: self.discontinuity_sequence,
            end_list: self.end_list,
            server_control: match self.server_control {
                Some(s) => Some(s@),
                None => None,
            },
            segments: segment_views(self.segments@),
            preload_hint: hint_views(self.preload_hint@),
            rendition_reports: report_views(self.rendition_reports@),
        }
    }
}

/// A yes/no attribute: `YES` or `true` is set, anything else (or absence) is not.
pub open spec fn yes_flag(m: Map<Seq<char>, Seq<char>>, key: Seq<char>) -> bool {
    m.contains_key(key) && (m[key] == "YES"@ || m[key] == "true"@)
}

/// A float attribute's text, when it is present and is a float.
pub open spec fn float_attr(m: Map<Seq<char>, Seq<char>>, key: Seq<char>) -> Option<Seq<char>> {
    if m.contains_key(key) && is_float_text(m[key]) {
        Some(m[key])
    } else {
        None
    }
}

/// The first `#EXT-X-VERSION`.
pub open spec fn first_version(t: Seq<TagView>) -> Option<u8>
    decreases t.len(),
{
    if t.len() == 0 {
        None
    } else {
        match t[0] {
            TagView::ExtXVersion(v) => Some(v),
            _ => first_version(t.drop_first()),
        }
    }
}

/// The first `#EXT-X-TARGETDURATION`.
pub open spec fn first_target_duration(t: Seq<TagView>) -> Option<u32>
    decreases t.len(),
{
    if t.len() == 0 {
        None
    } else {
        match t[0] {
            TagView::ExtXTargetDuration(v) => Some(v),
            _ => first_target_duration(t.drop_first()),
        }
    }
}

/// The first `#EXT-X-MEDIA-SEQUENCE`.
pub open spec fn first_media_sequence(t: Seq<TagView>) -> Option<u32>
    decreases t.len(),
{
    if t.len() == 0 {
        None
    } else {
        match t[0] {
            TagView::ExtXMediaSequence(v) => Some(v),
            _ => first_media_sequence(t.drop_first()),
        }
    }
}

/// The first `#EXT-X-DISCONTINUITY-SEQUENCE`.
pub open spec fn first_discontinuity_sequence(t: Seq<TagView>) -> Option<u32>
    decreases t.len(),
{
    if t.len() == 0 {
        None
    } else {
        match t[0] {
            TagView::ExtXDiscontinuitySequence(v) => Some(v),
            _ => first_discontinuity_sequence(t.drop_first()),
        }
    }
}

/// Whether there is an `#EXT-X-ENDLIST`.
pub open spec fn has_end_list(t: Seq<TagView>) -> bool {
    exists|i: int| 0 <= i < t.len() && t[i] is ExtXEndList
}

/// The server control settings of the first `#EXT-X-SERVER-CONTROL`.
pub open spec fn first_server_control(t: Seq<TagView>) -> Option<ServerControlView>
    decreases t.len(),
{
    if t.len() == 0 {
        None
    } else {
        match t[0] {
            TagView::ExtXServerControl(m) => Some(server_control_of(m)),
            _ => first_server_control(t.drop_first()),
        }
    }
}

/// The server control settings of an attribute set.
pub open spec fn server_control_of(m: Map<Seq<char>, Seq<char>>) -> ServerControlView {
    ServerControlView {
        can_skip_until: float_attr(m, "CAN-SKIP-UNTIL"@),
        hold_back: float_attr(m, "HOLD-BACK"@),
        part_hold_back: float_attr(m, "PART-HOLD-BACK"@),
        can_block_reload: yes_flag(m, "CAN-BLOCK-RELOAD"@),
    }
}

/// The number of `#EXTINF` tags.
pub open spec fn inf_count(t: Seq<TagView>) -> nat
    decreases t.len(),
{
    if t.len() == 0 {
        0
    } else {
        (if t[0] is ExtInf {
            1nat
        } else {
            0nat
        }) + inf_count(t.drop_first())
    }
}

/// The state of the segment scan: the pending map URI, the next sequence
/// number, the finished segments, the segment being filled by parts, the
/// pending program date time and discontinuity, and the part target.
pub struct SegmentScan {
    pub map: Option<Seq<char>>,
    pub sn: u32,
    pub segments: Seq<SegmentView>,
    pub current: Option<SegmentView>,
    pub program_date_time: Option<Seq<char>>,
    pub discontinuity: bool,
    pub part_target: Option<Seq<char>>,
}

/// A new empty segment at the scan's position, with the given map.
pub open spec fn fresh_segment(st: SegmentScan, map: Option<Seq<char>>) -> SegmentView {
    SegmentView {
        discontinuity: st.discontinuity,
        map: map,
        sn: st.sn,
        duration: None,
        url: Seq::empty(),
        program_date_time: st.program_date_time,
        gap: false,
        parts: seq![],
    }
}

/// One tag of the segment scan.
///
/// `#EXTINF` closes the current segment (or a fresh one, which takes the
/// pending map) with its duration and URI; `#EXT-X-PART` adds a part to the
/// current segment (starting a fresh one that copies the pending map).
pub open spec fn segment_step(st: SegmentScan, t: TagView) -> Result<SegmentScan, Seq<char>> {
    match t {
        TagView::ExtXProgramDateTime(d) => Ok(SegmentScan { program_date_time: Some(d), ..st }),
        TagView::ExtXMap(m) => if m.contains_key("URI"@) {
            Ok(SegmentScan { map: Some(m["URI"@]), ..st })
        } else {
            Err("no URI attribute found"@)
        },
        TagView::ExtInf(d, u) => {
            let seg = match st.current {
                Some(s) => s,
                None => fresh_segment(st, st.map),
            };
            let map = match st.current {
                Some(_) => st.map,
                None => None,
            };
            Ok(
                SegmentScan {
                    map: map,
                    sn: (st.sn + 1) as u32,
                    segments: st.segments.push(SegmentView { duration: Some(d), url: u, ..seg }),
                    current: None,
                    discontinuity: false,
                    ..st
                },
            )
        },
        TagView::ExtXDiscontinuity => Ok(SegmentScan { discontinuity: true, ..st }),
        TagView::ExtXPart(m) => {
            if !m.contains_key("DURATION"@) {
                Err("no DURATION attribute found"@)
            } else if !is_float_text(m["DURATION"@]) {
                Err("DURATION attribute is not a number"@)
            } else if !m.contains_key("URI"@) {
                Err("no URI attribute found"@)
            } else {
                let part = PartView {
                    duration: m["DURATION"@],
                    uri: m["URI"@],
                    independent: yes_flag(m, "INDEPENDENT"@),
                };
                let seg = match st.current {
                    Some(s) => s,
                    None => fresh_segment(st, st.map),
                };
                Ok(SegmentScan { current: Some(SegmentView { parts: seg.parts.push(part), ..seg }), ..st })
            }
        },
        TagView::ExtXPartInf(m) => {
            if !m.contains_key("PART-TARGET"@) {
                Err("no DURATION attribute found"@)
            } else if !is_float_text(m["PART-TARGET"@]) {
                Err("DURATION attribute is not a number"@)
            } else {
                Ok(SegmentScan { part_target: Some(m["PART-TARGET"@]), ..st })
            }
        },
        _ => Ok(st),
    }
}

/// The segment scan over a sequence of tags, or the first error.
pub open spec fn segment_scan(t: Seq<TagView>, st: SegmentScan) -> Result<SegmentScan, Seq<char>>
    decreases t.len(),
{
    if t.len() == 0 {
        Ok(st)
    } else {
        match segment_step(st, t[0]) {
            Ok(s2) => segment_scan(t.drop_first(), s2),
            Err(e) => Err(e),
        }
    }
}

/// The scan state before the first tag.
pub open spec fn initial_scan(media_sequence: u32) -> SegmentScan {
    SegmentScan {
        map: None,
        sn: media_sequence,
        segments: seq![],
        current: None,
        program_date_time: None,
        discontinuity: false,
        part_target: None,
    }
}

/// The segments a finished scan gives: the closed ones and any segment still filled by parts.
pub open spec fn scan_segments(st: SegmentScan) -> Seq<SegmentView> {
    match st.current {
        Some(s) => st.segments.push(s),
        None => st.segments,
    }
}

/// The numbering invariant of the segment scan: closed segments are numbered
/// from `ms` on, the next number follows them, and a segment being filled
/// carries the next number.
pub open spec fn numbered_from(st: SegmentScan, ms: u32) -> bool {
    &&& st.sn == ms + st.segments.len()
    &&& forall|k: int| 0 <= k < st.segments.len() ==> (#[trigger] st.segments[k]).sn == ms + k
    &&& match st.current {
        Some(c) => c.sn == st.sn,
        None => true,
    }
}

/// The segment scan keeps the numbering invariant, as long as the numbers
/// stay within `u32`.
proof fn lemma_scan_numbering(t: Seq<TagView>, st: SegmentScan, ms: u32)
    requires
        numbered_from(st, ms),
        st.sn + inf_count(t) <= u32::MAX,
        segment_scan(t, st) is Ok,
    ensures
        numbered_from(segment_scan(t, st)->Ok_0, ms),
    decreases t.len(),
{
    if t.len() > 0 {
        let s2 = segment_step(st, t[0])->Ok_0;
        assert(segment_step(st, t[0]) is Ok);
        match t[0] {
            TagView::ExtInf(d, u) => {
                let seg = match st.current {
                    Some(c) => c,
                    None => fresh_segment(st, st.map),
                };
                assert(s2.segments == st.segments.push(SegmentView { duration: Some(d), url: u, ..seg }));
                assert forall|k: int| 0 <= k < s2.segments.len() implies (#[trigger] s2.segments[k]).sn
                    == ms + k by {
                    if k < st.segments.len() {
                        assert(s2.segments[k] == st.segments[k]);
                    }
                }
            },
            _ => {},
        }
        assert(numbered_from(s2, ms));
        lemma_scan_numbering(t.drop_first(), s2, ms);
    }
}

/// The segments of a media playlist are numbered consecutively from its
/// media sequence number (zero when the playlist gives none).
pub proof fn law_segments_numbered_from_media_sequence(t: Seq<TagView>)
    requires
        (match first_media_sequence(t) {
            Some(v) => v as nat,
            None => 0nat,
        }) + inf_count(t) <= u32::MAX,
        media_playlist_of(t) is Ok,
    ensures
        ({
            let p = media_playlist_of(t)->Ok_0;
            forall|k: int| 0 <= k < p.segments.len() ==> (#[trigger] p.segments[k]).sn == p.media_sequence + k
        }),
{
    let ms = match first_media_sequence(t) {
        Some(v) => v,
        None => 0u32,
    };
    let st0 = initial_scan(ms);
    assert(numbered_from(st0, ms));
    lemma_scan_numbering(t, st0, ms);
    let st = segment_scan(t, st0)->Ok_0;
    let p = media_playlist_of(t)->Ok_0;
    assert(p.segments == scan_segments(st));
    assert forall|k: int| 0 <= k < p.segments.len() implies (#[trigger] p.segments[k]).sn
        == p.media_sequence + k by {
        if k < st.segments.len() {
            assert(p.segments[k] == st.segments[k]);
        }
    }
}

/// Scanning two runs of tags one after the other is scanning the first, then
/// the second from where the first left off.
proof fn lemma_scan_append(x: Seq<TagView>, y: Seq<TagView>, st: SegmentScan)
    ensures
        segment_scan(x + y, st) == (match segment_scan(x, st) {
            Ok(s) => segment_scan(y, s),
            Err(e) => Err(e),
        }),
    decreases x.len(),
{
    if x.len() == 0 {
        assert(x + y =~= y);
    } else {
        assert((x + y)[0] == x[0]);
        assert((x + y).drop_first() =~= x.drop_first() + y);
        match segment_step(st, x[0]) {
            Ok(s2) => lemma_scan_append(x.drop_first(), y, s2),
            Err(e) => {},
        }
    }
}

/// Scanning one tag is one step.
proof fn lemma_scan_one(x: TagView, st: SegmentScan)
    ensures
        segment_scan(seq![x], st) == segment_step(st, x),
{
    assert(seq![x].drop_first() =~= Seq::<TagView>::empty());
    match segment_step(st, x) {
        Ok(s2) => assert(segment_scan(Seq::<TagView>::empty(), s2) == Ok::<_, Seq<char>>(s2)),
        Err(e) => {},
    }
}

/// The scan never changes a closed segment, and closes one segment per `#EXTINF`.
proof fn lemma_scan_keeps_segments(t: Seq<TagView>, st: SegmentScan)
    requires
        segment_scan(t, st) is Ok,
    ensures
        segment_scan(t, st)->Ok_0.segments.len() == st.segments.len() + inf_count(t),
        forall|k: int|
            0 <= k < st.segments.len() ==> segment_scan(t, st)->Ok_0.segments[k]
                == #[trigger] st.segments[k],
    decreases t.len(),
{
    if t.len() > 0 {
        assert(segment_step(st, t[0]) is Ok);
        let s2 = segment_step(st, t[0])->Ok_0;
        lemma_scan_keeps_segments(t.drop_first(), s2);
        assert(s2.segments.len() == st.segments.len() + (if t[0] is ExtInf {
            1nat
        } else {
            0nat
        }));
        assert forall|k: int| 0 <= k < st.segments.len() implies s2.segments[k]
            == #[trigger] st.segments[k] by {}
    }
}

/// Before a segment starts (no `#EXTINF`, no `#EXT-X-PART`), the scan keeps
/// no segment open and remembers whether an `#EXT-X-DISCONTINUITY` came.
proof fn lemma_scan_before_start(t: Seq<TagView>, st: SegmentScan)
    requires
        segment_scan(t, st) is Ok,
        st.current is None,
        forall|i: int| 0 <= i < t.len() ==> !(#[trigger] t[i] is ExtInf) && !(t[i] is ExtXPart),
    ensures
        segment_scan(t, st)->Ok_0.current is None,
        segment_scan(t, st)->Ok_0.discontinuity == (st.discontinuity || exists|i: int|
            0 <= i < t.len() && #[trigger] t[i] is ExtXDiscontinuity),
    decreases t.len(),
{
    if t.len() > 0 {
        assert(segment_step(st, t[0]) is Ok);
        let s2 = segment_step(st, t[0])->Ok_0;
        let r = t.drop_first();
        assert forall|i: int| 0 <= i < r.len() implies !(#[trigger] r[i] is ExtInf) && !(
        r[i] is ExtXPart) by {
            assert(r[i] == t[i + 1]);
        }
        lemma_scan_before_start(r, s2);
        assert(s2.current is None);
        assert(s2.discontinuity == (st.discontinuity || t[0] is ExtXDiscontinuity));
        if exists|i: int| 0 <= i < t.len() && #[trigger] t[i] is ExtXDiscontinuity {
            let i = choose|i: int| 0 <= i < t.len() && #[trigger] t[i] is ExtXDiscontinuity;
            if i > 0 {
                assert(r[i - 1] is ExtXDiscontinuity);
            }
        }
        if exists|i: int| 0 <= i < r.len() && #[trigger] r[i] is ExtXDiscontinuity {
            let i = choose|i: int| 0 <= i < r.len() && #[trigger] r[i] is ExtXDiscontinuity;
            assert(t[i + 1] is ExtXDiscontinuity);
        }
    }
}

/// Inside a started segment (no `#EXTINF`), the open segment keeps the
/// discontinuity mark it started with.
proof fn lemma_scan_in_segment(t: Seq<TagView>, st: SegmentScan)
    requires
        segment_scan(t, st) is Ok,
        st.current is Some,
        forall|i: int| 0 <= i < t.len() ==> !(#[trigger] t[i] is ExtInf),
    ensures
        segment_scan(t, st)->Ok_0.current is Some,
        segment_scan(t, st)->Ok_0.current->0.discontinuity == st.current->0.discontinuity,
    decreases t.len(),
{
    if t.len() > 0 {
        assert(segment_step(st, t[0]) is Ok);
        let s2 = segment_step(st, t[0])->Ok_0;
        let r = t.drop_first();
        assert forall|i: int| 0 <= i < r.len() implies !(#[trigger] r[i] is ExtInf) by {
            assert(r[i] == t[i + 1]);
        }
        lemma_scan_in_segment(r, s2);
    }
}

/// A segment is marked as a discontinuity exactly when an
/// `#EXT-X-DISCONTINUITY` tag stands after the previous segment's `#EXTINF`
/// and before the segment starts. Here the segment is the one that the
/// `#EXTINF` after the tags `a` closes (it is the segment numbered
/// `inf_count(a)` from the first); `p` is the place of the last `#EXTINF`
/// of `a` (-1 where there is none), and the segment starts at its first
/// `#EXT-X-PART` after `p` (place `q`), or at its own `#EXTINF` where it has
/// no parts (`q` is the length of `a`).
pub proof fn law_discontinuity_marks_next_segment(
    a: Seq<TagView>,
    d: Seq<char>,
    u: Seq<char>,
    b: Seq<TagView>,
    p: int,
    q: int,
)
    requires
        -1 <= p < q <= a.len(),
        p >= 0 ==> a[p] is ExtInf,
        forall|i: int| p < i < a.len() ==> !(#[trigger] a[i] is ExtInf),
        forall|i: int| p < i < q ==> !(#[trigger] a[i] is ExtXPart),
        q < a.len() ==> a[q] is ExtXPart,
        media_playlist_of(a + seq![TagView::ExtInf(d, u)] + b) is Ok,
    ensures
        ({
            let pl = media_playlist_of(a + seq![TagView::ExtInf(d, u)] + b)->Ok_0;
            &&& inf_count(a) < pl.segments.len()
            &&& pl.segments[inf_count(a) as int].discontinuity == exists|i: int|
                p < i < q && #[trigger] a[i] is ExtXDiscontinuity
        }),
{
    let inf = TagView::ExtInf(d, u);
    let t = a + seq![inf] + b;
    let ms = match first_media_sequence(t) {
        Some(v) => v,
        None => 0u32,
    };
    let st0 = initial_scan(ms);
    assert(segment_scan(t, st0) is Ok);
    let fin = segment_scan(t, st0)->Ok_0;
    let pl = media_playlist_of(t)->Ok_0;
    assert(pl.segments == scan_segments(fin));
    // the scan over `a`
    assert(t =~= a + (seq![inf] + b));
    lemma_scan_append(a, seq![inf] + b, st0);
    let sa = segment_scan(a, st0)->Ok_0;
    lemma_scan_keeps_segments(a, st0);
    // up to and with the last `#EXTINF` of `a`
    let a1 = a.take(p + 1);
    let a2 = a.subrange(p + 1, q);
    let a3 = a.subrange(q, a.len() as int);
    assert(a =~= a1 + (a2 + a3));
    lemma_scan_append(a1, a2 + a3, st0);
    let s1 = segment_scan(a1, st0)->Ok_0;
    if p >= 0 {
        assert(a1 =~= a.take(p) + seq![a[p]]);
        lemma_scan_append(a.take(p), seq![a[p]], st0);
        lemma_scan_one(a[p], segment_scan(a.take(p), st0)->Ok_0);
    } else {
        assert(a1.len() == 0);
    }
    assert(s1.current is None && !s1.discontinuity);
    // between it and the start of the segment
    lemma_scan_append(a2, a3, s1);
    assert forall|i: int| 0 <= i < a2.len() implies !(#[trigger] a2[i] is ExtInf) && !(
    a2[i] is ExtXPart) by {
        assert(a2[i] == a[p + 1 + i]);
    }
    lemma_scan_before_start(a2, s1);
    let s2 = segment_scan(a2, s1)->Ok_0;
    let marked = exists|i: int| p < i < q && #[trigger] a[i] is ExtXDiscontinuity;
    if marked {
        let i = choose|i: int| p < i < q && #[trigger] a[i] is ExtXDiscontinuity;
        assert(a2[i - p - 1] is ExtXDiscontinuity);
    }
    if exists|i: int| 0 <= i < a2.len() && #[trigger] a2[i] is ExtXDiscontinuity {
        let i = choose|i: int| 0 <= i < a2.len() && #[trigger] a2[i] is ExtXDiscontinuity;
        assert(a[p + 1 + i] is ExtXDiscontinuity);
    }
    assert(s2.discontinuity == marked);
    assert(segment_scan(a3, s2) == Ok::<_, Seq<char>>(sa));
    // the segment's own parts
    let open_mark = match sa.current {
        Some(c) => c.discontinuity,
        None => sa.discontinuity,
    };
    if q < a.len() {
        assert(a3[0] is ExtXPart);
        assert(segment_step(s2, a3[0]) is Ok);
        let s3 = segment_step(s2, a3[0])->Ok_0;
        assert(s3.current is Some && s3.current->0.discontinuity == marked);
        assert forall|i: int| 0 <= i < a3.drop_first().len() implies !(
        #[trigger] a3.drop_first()[i] is ExtInf) by {
            assert(a3.drop_first()[i] == a[q + 1 + i]);
        }
        lemma_scan_in_segment(a3.drop_first(), s3);
    } else {
        assert(a3.len() == 0);
        assert(sa == s2);
    }
    assert(open_mark == marked);
    // the `#EXTINF` closes it
    lemma_scan_append(seq![inf], b, sa);
    lemma_scan_one(inf, sa);
    let s4 = segment_step(sa, inf)->Ok_0;
    assert(s4.segments[sa.segments.len() as int].discontinuity == marked);
    lemma_scan_keeps_segments(b, s4);
    assert(fin == segment_scan(b, s4)->Ok_0);
    assert(fin.segments[sa.segments.len() as int] == s4.segments[sa.segments.len() as int]);
    assert(pl.segments[sa.segments.len() as int] == fin.segments[sa.segments.len() as int]);
}

/// The preload hints, or the first error.
pub open spec fn hints_of(t: Seq<TagView>) -> Result<Seq<PreloadHintView>, Seq<char>>
    decreases t.len(),
{
    if t.len() == 0 {
        Ok(seq![])
    } else {
        let rest = hints_of(t.drop_first());
        match t[0] {
            TagView::ExtXPreloadHint(m) => if !m.contains_key("TYPE"@) {
                Err("no TYPE attribute found"@)
            } else if !m.contains_key("URI"@) {
                Err("no URI attribute found"@)
            } else {
                match rest {
                    Ok(r) => Ok(seq![PreloadHintView { hint_type: m["TYPE"@], uri: m["URI"@] }] + r),
                    Err(e) => Err(e),
                }
            },
            _ => rest,
        }
    }
}

/// The rendition report of one attribute set, or its error.
pub open spec fn report_of(m: Map<Seq<char>, Seq<char>>) -> Result<RenditionReportView, Seq<char>> {
    if !m.contains_key("URI"@) {
        Err("no URI attribute found"@)
    } else if !m.contains_key("LAST-MSN"@) {
        Err("no LAST-MSN attribute found"@)
    } else if unsigned_in_range(m["LAST-MSN"@], u32::MAX as nat) is None {
        Err("LAST-MSN attribute is not a number"@)
    } else if !m.contains_key("LAST-PART"@) {
        Err("no LAST-PART attribute found"@)
    } else if unsigned_in_range(m["LAST-PART"@], u32::MAX as nat) is None {
        Err("LAST-PART attribute is not a number"@)
    } else {
        Ok(
            RenditionReportView {
                uri: m["URI"@],
                last_msn: unsigned_in_range(m["LAST-MSN"@], u32::MAX as nat)->0 as u32,
                last_part: unsigned_in_range(m["LAST-PART"@], u32::MAX as nat)->0 as u32,
            },
        )
    }
}

/// The rendition reports, or the first error.
pub open spec fn reports_of(t: Seq<TagView>) -> Result<Seq<RenditionReportView>, Seq<char>>
    decreases t.len(),
{
    if t.len() == 0 {
        Ok(seq![])
    } else {
        let rest = reports_of(t.drop_first());
        match t[0] {
            TagView::ExtXRenditionReport(m) => match report_of(m) {
                Err(e) => Err(e),
                Ok(rep) => match rest {
                    Ok(r) => Ok(seq![rep] + r),
                    Err(e) => Err(e),
                },
            },
            _ => rest,
        }
    }
}

/// The media playlist that a sequence of tags describes, or the error that
/// comes first: a missing version, a missing target duration, an error of
/// the segment scan, of the preload hints, then of the rendition reports.
pub open spec fn media_playlist_of(t: Seq<TagView>) -> Result<MediaPlaylistView, Seq<char>> {
    match first_version(t) {
        None => Err("no #EXT-X-VERSION tag found"@),
        Some(version) => match first_target_duration(t) {
            None => Err("no #EXT-X-TARGETDURATION tag found"@),
            Some(target_duration) => {
                let media_sequence = match first_media_sequence(t) {
                    Some(v) => v,
                    None => 0u32,
                };
                match segment_scan(t, initial_scan(media_sequence)) {
                    Err(e) => Err(e),
                    Ok(st) => match hints_of(t) {
                        Err(e) => Err(e),
                        Ok(hints) => match reports_of(t) {
                            Err(e) => Err(e),
                            Ok(reports) => Ok(
                                MediaPlaylistView {
                                    version: version,
                                    target_duration: target_duration,
                                    part_target_duration: st.part_target,
                                    media_sequence: media_sequence,
                                    discontinuity_sequence: match first_discontinuity_sequence(t) {
                                        Some(v) => v,
                                        None => 0u32,
                                    },
                                    end_list: has_end_list(t),
                                    server_control: first_server_control(t),
                                    segments: scan_segments(st),
                                    preload_hint: hints,
                                    rendition_reports: reports,
                                },
                            ),
                        },
                    },
                }
            },
        },
    }
}

/// Whether a yes/no attribute is set.
fn yes_attr(a: &Attributes, key: &str) -> (r: bool)
    ensures
        r == yes_flag(a@, key@),
{
    match a.get(key) {
        Some(v) => {
            let c = chars_of(v.as_str());
            chars_eq(&c, "YES") || chars_eq(&c, "true")
        },
        None => false,
    }
}

/// A float attribute's text, when it is present and is a float.
fn float_attr_of(a: &Attributes, key: &str) -> (r: Option<String>)
    ensures
        opt_str(r) == float_attr(a@, key@),
{
    match a.get(key) {
        Some(v) => {
            if is_float(&chars_of(v.as_str())) {
                Some(v.clone())
            } else {
                None
            }
        },
        None => None,
    }
}

/// The first `#EXT-X-VERSION`.
fn find_version(tags: &Vec<Tag>) -> (r: Option<u8>)
    ensures
        r == first_version(tag_views(tags@)),
{
    let ghost tv = tag_views(tags@);
    let mut i: usize = 0;
    assert(tv.skip(0) == tv);
    while i < tags.len()
        invariant
            i <= tags.len() == tv.len(),
            tv == tag_views(tags@),
            first_version(tv) == first_version(tv.skip(i as int)),
        decreases tags.len() - i,
    {
        proof {
            lemma_skip_step(tv, i as int);
        }
        match &tags[i] {
            Tag::ExtXVersion(v) => {
                return Some(*v);
            },
            _ => {},
        }
        i = i + 1;
    }
    None
}

/// The first `#EXT-X-TARGETDURATION`.
fn find_target_duration(tags: &Vec<Tag>) -> (r: Option<u32>)
    ensures
        r == first_target_duration(tag_views(tags@)),
{
    let ghost tv = tag_views(tags@);
    let mut i: usize = 0;
    assert(tv.skip(0) == tv);
    while i < tags.len()
        invariant
            i <= tags.len() == tv.len(),
            tv == tag_views(tags@),
            first_target_duration(tv) == first_target_duration(tv.skip(i as int)),
        decreases tags.len() - i,
    {
        proof {
            lemma_skip_step(tv, i as int);
        }
        match &tags[i] {
            Tag::ExtXTargetDuration(v) => {
                return Some(*v);
            },
            _ => {},
        }
        i = i + 1;
    }
    None
}

/// The first `#EXT-X-MEDIA-SEQUENCE`.
fn find_media_sequence(tags: &Vec<Tag>) -> (r: Option<u32>)
    ensures
        r == first_media_sequence(tag_views(tags@)),
{
    let ghost tv = tag_views(tags@);
    let mut i: usize = 0;
    assert(tv.skip(0) == tv);
    while i < tags.len()
        invariant
            i <= tags.len() == tv.len(),
            tv == tag_views(tags@),
            first_media_sequence(tv) == first_media_sequence(tv.skip(i as int)),
        decreases tags.len() - i,
    {
        proof {
            lemma_skip_step(tv, i as int);
        }
        match &tags[i] {
            Tag::ExtXMediaSequence(v) => {
                return Some(*v);
            },
            _ => {},
        }
        i = i + 1;
    }
    None
}

/// The first `#EXT-X-DISCONTINUITY-SEQUENCE`.
fn find_discontinuity_sequence(tags: &Vec<Tag>) -> (r: Option<u32>)
    ensures
        r == first_discontinuity_sequence(tag_views(tags@)),
{
    let ghost tv = tag_views(tags@);
    let mut i: usize = 0;
    assert(tv.skip(0) == tv);
    while i < tags.len()
        invariant
            i <= tags.len() == tv.len(),
            tv == tag_views(tags@),
            first_discontinuity_sequence(tv) == first_discontinuity_sequence(tv.skip(i as int)),
        decreases tags.len() - i,
    {
        proof {
            lemma_skip_step(tv, i as int);
        }
        match &tags[i] {
            Tag::ExtXDiscontinuitySequence(v) => {
                return Some(*v);
            },
            _ => {},
        }
        i = i + 1;
    }
    None
}

/// Whether there is an `#EXT-X-ENDLIST`.
fn find_end_list(tags: &Vec<Tag>) -> (r: bool)
    ensures
        r == has_end_list(tag_views(tags@)),
{
    let ghost tv = tag_views(tags@);
    let mut i: usize = 0;
    while i < tags.len()
        invariant
            i <= tags.len() == tv.len(),
            tv == tag_views(tags@),
            forall|j: int| 0 <= j < i ==> !(tv[j] is ExtXEndList),
        decreases tags.len() - i,
    {
        match &tags[i] {
            Tag::ExtXEndList => {
                assert(tv[i as int] is ExtXEndList);
                return true;
            },
            _ => {},
        }
        i = i + 1;
    }
    false
}

/// The server control settings of the first `#EXT-X-SERVER-CONTROL`.
fn find_server_control(tags: &Vec<Tag>) -> (r: Option<ServerControl>)
    ensures
        match r {
            Some(s) => first_server_control(tag_views(tags@)) == Some(s@),
            None => first_server_control(tag_views(tags@)) is None,
        },
{
    let ghost tv = tag_views(tags@);
    let mut i: usize = 0;
    assert(tv.skip(0) == tv);
    while i < tags.len()
        invariant
            i <= tags.len() == tv.len(),
            tv == tag_views(tags@),
            first_server_control(tv) == first_server_control(tv.skip(i as int)),
        decreases tags.len() - i,
    {
        proof {
            lemma_skip_step(tv, i as int);
        }
        match &tags[i] {
            Tag::ExtXServerControl(a) => {
                let s = ServerControl {
                    can_skip_until: float_attr_of(a, "CAN-SKIP-UNTIL"),
                    hold_back: float_attr_of(a, "HOLD-BACK"),
                    part_hold_back: float_attr_of(a, "PART-HOLD-BACK"),
                    can_block_reload: yes_attr(a, "CAN-BLOCK-RELOAD"),
                };
                return Some(s);
            },
            _ => {},
        }
        i = i + 1;
    }
    None
}

/// The scan state that the executable scan variables stand for.
pub open spec fn scan_state(
    map: Option<String>,
    sn: u32,
    segments: Seq<Segment>,
    current: Option<Segment>,
    program_date_time: Option<String>,
    discontinuity: bool,
    part_target: Option<String>,
) -> SegmentScan {
    SegmentScan {
        map: opt_str(map),
        sn: sn,
        segments: segment_views(segments),
        current: match current {
            Some(c) => Some(c@),
            None => None,
        },
        program_date_time: opt_str(program_date_time),
        discontinuity: discontinuity,
        part_target: opt_str(part_target),
    }
}

/// Each `#EXTINF` adds one to the count.
proof fn lemma_inf_count_step(t: Seq<TagView>, i: int)
    requires
        0 <= i < t.len(),
    ensures
        inf_count(t.skip(i)) == (if t[i] is ExtInf {
            1nat
        } else {
            0nat
        }) + inf_count(t.skip(i + 1)),
{
    lemma_skip_step(t, i);
}

/// Runs the segment scan over all tags.
fn scan_segments_of(tags: &Vec<Tag>, media_sequence: u32) -> (r: Result<
    (Vec<Segment>, Option<String>),
    String,
>)
    requires
        media_sequence + inf_count(tag_views(tags@)) <= u32::MAX,
    ensures
        r matches Ok((segs, pt)) ==> segment_scan(tag_views(tags@), initial_scan(media_sequence))
            matches Ok(st) && scan_segments(st) == segment_views(segs@) && st.part_target
            == opt_str(pt),
        r matches Err(e) ==> segment_scan(tag_views(tags@), initial_scan(media_sequence))
            == Err::<SegmentScan, _>(e@),
{
    let ghost tv = tag_views(tags@);
    let mut map: Option<String> = None;
    let mut sn: u32 = media_sequence;
    let mut segments: Vec<Segment> = Vec::new();
    let mut current: Option<Segment> = None;
    let mut program_date_time: Option<String> = None;
    let mut discontinuity = false;
    let mut part_target: Option<String> = None;
    let mut i: usize = 0;
    assert(tv.skip(0) == tv);
    assert(segment_views(segments@) == Seq::<SegmentView>::empty());
    while i < tags.len()
        invariant
            i <= tags.len() == tv.len(),
            tv == tag_views(tags@),
            sn + inf_count(tv.skip(i as int)) <= u32::MAX,
            segment_scan(tv, initial_scan(media_sequence)) == segment_scan(
                tv.skip(i as int),
                scan_state(
                    map,
                    sn,
                    segments@,
                    current,
                    program_date_time,
                    discontinuity,
                    part_target,
                ),
            ),
        decreases tags.len() - i,
    {
        proof {
            lemma_skip_step(tv, i as int);
            lemma_inf_count_step(tv, i as int);
        }
        let ghost st = scan_state(
            map,
            sn,
            segments@,
            current,
            program_date_time,
            discontinuity,
            part_target,
        );
        match &tags[i] {
            Tag::ExtXProgramDateTime(d) => {
                program_date_time = Some(d.clone());
            },
            Tag::ExtXMap(a) => {
                match a.get("URI") {
                    Some(u) => {
                        map = Some(u.clone());
                    },
                    None => {
                        return Err("no URI attribute found".to_owned());
                    },
                }
            },
            Tag::ExtInf(d, u) => {
                let taken = current.take();
                let mut seg = match taken {
                    Some(s) => s,
                    None => Segment {
                        discontinuity: discontinuity,
                        map: map.take(),
                        sn: sn,
                        duration: None,
                        url: String::new(),
                        program_date_time: clone_opt(&program_date_time),
                        gap: false,
                        parts: Vec::new(),
                    },
                };
                seg.duration = Some(d.clone());
                seg.url = u.clone();
                discontinuity = false;
                sn = sn + 1;
                proof {
                    assert(part_views(Seq::<Part>::empty()) == Seq::<PartView>::empty());
                }
                segments.push(seg);
                proof {
                    assert(segment_views(segments@) == st.segments.push(seg@));
                }
            },
            Tag::ExtXDiscontinuity => {
                discontinuity = true;
            },
            Tag::ExtXPart(a) => {
                let duration = match a.get("DURATION") {
                    Some(d) => d,
                    None => {
                        return Err("no DURATION attribute found".to_owned());
                    },
                };
                if !is_float(&chars_of(duration.as_str())) {
                    return Err("DURATION attribute is not a number".to_owned());
                }
                let uri = match a.get("URI") {
                    Some(u) => u,
                    None => {
                        return Err("no URI attribute found".to_owned());
                    },
                };
                let part = Part {
                    duration: duration.clone(),
                    uri: uri.clone(),
                    independent: yes_attr(a, "INDEPENDENT"),
                };
                let taken = current.take();
                let mut seg = match taken {
                    Some(s) => s,
                    None => Segment {
                        discontinuity: discontinuity,
                        map: clone_opt(&map),
                        sn: sn,
                        duration: None,
                        url: String::new(),
                        program_date_time: clone_opt(&program_date_time),
                        gap: false,
                        parts: Vec::new(),
                    },
                };
                let ghost before = seg;
                seg.parts.push(part);
                proof {
                    assert(part_views(seg.parts@) == part_views(before.parts@).push(part@));
                    assert(part_views(Seq::<Part>::empty()) == Seq::<PartView>::empty());
                }
                current = Some(seg);
            },
            Tag::ExtXPartInf(a) => {
                let target = match a.get("PART-TARGET") {
                    Some(d) => d,
                    None => {
                        return Err("no DURATION attribute found".to_owned());
                    },
                };
                if !is_float(&chars_of(target.as_str())) {
                    return Err("DURATION attribute is not a number".to_owned());
                }
                part_target = Some(target.clone());
            },
            _ => {},
        }
        proof {
            assert(segment_step(st, tv[i as int]) == Ok::<_, Seq<char>>(
                scan_state(
                    map,
                    sn,
                    segments@,
                    current,
                    program_date_time,
                    discontinuity,
                    part_target,
                ),
            ));
        }
        i = i + 1;
    }
    let ghost st = scan_state(
        map,
        sn,
        segments@,
        current,
        program_date_time,
        discontinuity,
        part_target,
    );
    match current {
        Some(seg) => {
            segments.push(seg);
            proof {
                assert(segment_views(segments@) == st.segments.push(seg@));
            }
        },
        None => {},
    }
    Ok((segments, part_target))
}

/// The preload hints, or the first error.
fn collect_hints(tags: &Vec<Tag>) -> (r: Result<Vec<PreloadHint>, String>)
    ensures
        r matches Ok(h) ==> hints_of(tag_views(tags@)) == Ok::<_, Seq<char>>(hint_views(h@)),
        r matches Err(e) ==> hints_of(tag_views(tags@)) == Err::<Seq<PreloadHintView>, _>(e@),
{
    let ghost tv = tag_views(tags@);
    let mut out: Vec<PreloadHint> = Vec::new();
    let mut i: usize = 0;
    assert(tv.skip(0) == tv);
    assert(hint_views(out@) == Seq::<PreloadHintView>::empty());
    while i < tags.len()
        invariant
            i <= tags.len() == tv.len(),
            tv == tag_views(tags@),
            hints_of(tv) == match hints_of(tv.skip(i as int)) {
                Ok(r) => Ok(hint_views(out@) + r),
                Err(e) => Err(e),
            },
        decreases tags.len() - i,
    {
        proof {
            lemma_skip_step(tv, i as int);
        }
        match &tags[i] {
            Tag::ExtXPreloadHint(a) => {
                let hint_type = match a.get("TYPE") {
                    Some(x) => x,
                    None => {
                        return Err("no TYPE attribute found".to_owned());
                    },
                };
                let uri = match a.get("URI") {
                    Some(x) => x,
                    None => {
                        return Err("no URI attribute found".to_owned());
                    },
                };
                let h = PreloadHint { hint_type: hint_type.clone(), uri: uri.clone() };
                let ghost before = hint_views(out@);
                out.push(h);
                proof {
                    assert(hint_views(out@) == before + seq![h@]);
                    match hints_of(tv.skip(i + 1)) {
                        Ok(r) => {
                            assert(before + (seq![h@] + r) == (before + seq![h@]) + r);
                        },
                        Err(_) => {},
                    }
                }
            },
            _ => {},
        }
        i = i + 1;
    }
    assert(tv.skip(i as int) == Seq::<TagView>::empty());
    assert(hint_views(out@) + seq![] == hint_views(out@));
    Ok(out)
}

/// The rendition report of one attribute set, or its error.
fn report_from(a: &Attributes) -> (r: Result<RenditionReport, String>)
    ensures
        r matches Ok(x) ==> report_of(a@) == Ok::<_, Seq<char>>(x@),
        r matches Err(e) ==> report_of(a@) == Err::<RenditionReportView, _>(e@),
{
    let uri = match a.get("URI") {
        Some(x) => x,
        None => {
            return Err("no URI attribute found".to_owned());
        },
    };
    let last_msn = match a.get("LAST-MSN") {
        Some(x) => x,
        None => {
            return Err("no LAST-MSN attribute found".to_owned());
        },
    };
    let last_msn = match parse_u32(&chars_of(last_msn.as_str())) {
        Some(v) => v,
        None => {
            return Err("LAST-MSN attribute is not a number".to_owned());
        },
    };
    let last_part = match a.get("LAST-PART") {
        Some(x) => x,
        None => {
            return Err("no LAST-PART attribute found".to_owned());
        },
    };
    let last_part = match parse_u32(&chars_of(last_part.as_str())) {
        Some(v) => v,
        None => {
            return Err("LAST-PART attribute is not a number".to_owned());
        },
    };
    Ok(RenditionReport { uri: uri.clone(), last_msn, last_part })
}

/// The rendition reports, or the first error.
fn collect_reports(tags: &Vec<Tag>) -> (r: Result<Vec<RenditionReport>, String>)
    ensures
        r matches Ok(h) ==> reports_of(tag_views(tags@)) == Ok::<_, Seq<char>>(report_views(h@)),
        r matches Err(e) ==> reports_of(tag_views(tags@)) == Err::<Seq<RenditionReportView>, _>(
            e@,
        ),
{
    let ghost tv = tag_views(tags@);
    let mut out: Vec<RenditionReport> = Vec::new();
    let mut i: usize = 0;
    assert(tv.skip(0) == tv);
    assert(report_views(out@) == Seq::<RenditionReportView>::empty());
    while i < tags.len()
        invariant
            i <= tags.len() == tv.len(),
            tv == tag_views(tags@),
            reports_of(tv) == match reports_of(tv.skip(i as int)) {
                Ok(r) => Ok(report_views(out@) + r),
                Err(e) => Err(e),
            },
        decreases tags.len() - i,
    {
        proof {
            lemma_skip_step(tv, i as int);
        }
        match &tags[i] {
            Tag::ExtXRenditionReport(a) => {
                let rep = match report_from(a) {
                    Ok(x) => x,
                    Err(e) => {
                        return Err(e);
                    },
                };
                let ghost before = report_views(out@);
                out.push(rep);
                proof {
                    assert(report_views(out@) == before + seq![rep@]);
                    match reports_of(tv.skip(i + 1)) {
                        Ok(r) => {
                            assert(before + (seq![rep@] + r) == (before + seq![rep@]) + r);
                        },
                        Err(_) => {},
                    }
                }
            },
            _ => {},
        }
        i = i + 1;
    }
    assert(tv.skip(i as int) == Seq::<TagView>::empty());
    assert(report_views(out@) + seq![] == report_views(out@));
    Ok(out)
}

impl MediaPlaylist {
    /// Builds a media playlist from its tags.
    ///
    /// Fails when there is no version or no target duration, when a map, a
    /// part or a part target lacks a needed attribute or holds no number, or
    /// when a preload hint or a rendition report is incomplete.
    pub fn from_tags(tags: Vec<Tag>) -> (r: Result<MediaPlaylist, String>)
        requires
            (match first_media_sequence(tag_views(tags@)) {
                Some(v) => v as nat,
                None => 0nat,
            }) + inf_count(tag_views(tags@)) <= u32::MAX,
        ensures
            r matches Ok(p) ==> media_playlist_of(tag_views(tags@)) == Ok::<_, Seq<char>>(p@),
            r matches Err(e) ==> media_playlist_of(tag_views(tags@)) == Err::<MediaPlaylistView, _>(
                e@,
            ),
    {
        let version = match find_version(&tags) {
            Some(v) => v,
            None => {
                return Err("no #EXT-X-VERSION tag found".to_owned());
            },
        };
        let target_duration = match find_target_duration(&tags) {
            Some(v) => v,
            None => {
                return Err("no #EXT-X-TARGETDURATION tag found".to_owned());
            },
        };
        let media_sequence = match find_media_sequence(&tags) {
            Some(v) => v,
            None => 0,
        };
        let discontinuity_sequence = match find_discontinuity_sequence(&tags) {
            Some(v) => v,
            None => 0,
        };
        let end_list = find_end_list(&tags);
        let server_control = find_server_control(&tags);
        let (segments, part_target_duration) = match scan_segments_of(&tags, media_sequence) {
            Ok(x) => x,
            Err(e) => {
                return Err(e);
            },
        };
        let preload_hint = match collect_hints(&tags) {
            Ok(x) => x,
            Err(e) => {
                return Err(e);
            },
        };
        let rendition_reports = match collect_reports(&tags) {
            Ok(x) => x,
            Err(e) => {
                return Err(e);
            },
        };
        Ok(MediaPlaylist {
            version,
            target_duration,
            part_target_duration,
            media_sequence,
            discontinuity_sequence,
            end_list,
            server_control,
            segments,
            preload_hint,
            rendition_reports,
        })
    }
}

} // verus!
