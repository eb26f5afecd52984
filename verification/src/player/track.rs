//! The decisions of a media track: when to fetch its playlist and with which
//! options, how failures are counted, and which media to request next.
//! The clock, the network and the media buffers stay with the caller, which
//! hands in what it observed and carries out what is decided here.

use vstd::prelude::*;

use crate::address::{path_of_url, replace_url_path, url_path, url_with_path};
use crate::hls::media::opt_str;
use crate::player::api::{RenditionSettings, ScufflePart};
use crate::player::requests::RequestQueue;
use vstd::string::StringExecFns;
use crate::types::{
    RenditionPlaylist, RenditionPlaylistSegment, RenditionPlaylistSegmentPart, all_parts,
    first_part_number, part_number_fits, part_pos, segment_entries, seg_entries,
};

verus! {

/// How many failed playlist or init requests a track tolerates; one more is fatal.
pub const MAX_ERROR_COUNT: u32 = 10;

/// The delay added before a retry for each earlier failure, in milliseconds.
pub const ERROR_BACKOFF_MS: u32 = 250;

/// How old a playlist may get before the track drops it, in milliseconds.
pub const MANIFEST_STALE_MS: u32 = 6000;

/// How long a playlist request may stay in flight, in milliseconds.
pub const MANIFEST_REQUEST_TIMEOUT_MS: u32 = 6000;

/// How long a live playlist is kept before it is fetched again, in milliseconds.
pub const MANIFEST_REFRESH_MS: u32 = 2000;

/// When the playlist of a track is fetched again.
#[derive(Debug, Clone, Copy, PartialEq, Eq, Structural)]
pub enum ManifestRefresh {
    /// Once the refresh time that the caller keeps has passed.
    Time,
    /// At once, waiting for this part.
    Part(u32),
    /// At once, waiting for an independent part after this one.
    IPart(u32),
    /// Never: the playlist is finished.
    Never,
}

/// What a track does about its playlist when no playlist request is in flight.
#[derive(Debug, Clone, Copy, PartialEq, Eq, Structural)]
pub enum ManifestStep {
    /// Give up: too many requests have failed.
    TooManyErrors,
    /// Send a playlist request with these options.
    Request(RenditionSettings),
    /// Nothing to do yet.
    Wait,
}

/// The outcome of counting one more failed request.
#[derive(Debug, Clone, Copy, PartialEq, Eq, Structural)]
pub struct Failure {
    /// The new number of failures.
    pub count: u32,
    /// How long to wait before the next attempt, in milliseconds.
    pub retry_delay_ms: u64,
    /// Whether the failure ends playback of the track.
    pub fatal: bool,
}

/// The step for a track's playlist, when no request is in flight.
pub open spec fn manifest_step(
    has_manifest: bool,
    error_count: u32,
    refresh: ManifestRefresh,
    refresh_due: bool,
    start_ipart: Option<u32>,
    regions_empty: bool,
    dvr_enabled: bool,
) -> ManifestStep {
    let settings = |part: Option<ScufflePart>|
        RenditionSettings { scuffle_part: part, scuffle_dvr: dvr_enabled, hls_skip: !regions_empty };
    if !has_manifest {
        if error_count > MAX_ERROR_COUNT {
            ManifestStep::TooManyErrors
        } else {
            ManifestStep::Request(
                settings(
                    match start_ipart {
                        Some(idx) => Some(ScufflePart::IPart(idx)),
                        None => None,
                    },
                ),
            )
        }
    } else {
        match refresh {
            ManifestRefresh::Never => ManifestStep::Wait,
            ManifestRefresh::IPart(idx) => ManifestStep::Request(settings(Some(ScufflePart::IPart(idx)))),
            ManifestRefresh::Part(idx) => ManifestStep::Request(settings(Some(ScufflePart::Part(idx)))),
            ManifestRefresh::Time => if refresh_due {
                ManifestStep::Request(settings(None))
            } else {
                ManifestStep::Wait
            },
        }
    }
}

/// Decides what a track does about its playlist when no playlist request is
/// in flight. Without a playlist it fetches one (waiting for the independent
/// part it starts from, if any) unless too many requests have failed; with
/// one it follows the refresh rule. The request skips the segments the track
/// already knows when it knows some, and asks for DVR when DVR is on.
pub fn plan_manifest(
    has_manifest: bool,
    error_count: u32,
    refresh: ManifestRefresh,
    refresh_due: bool,
    start_ipart: Option<u32>,
    regions_empty: bool,
    dvr_enabled: bool,
) -> (r: ManifestStep)
    ensures
        r == manifest_step(
            has_manifest,
            error_count,
            refresh,
            refresh_due,
            start_ipart,
            regions_empty,
            dvr_enabled,
        ),
{
    let hls_skip = !regions_empty;
    if !has_manifest {
        if error_count > MAX_ERROR_COUNT {
            ManifestStep::TooManyErrors
        } else {
            let part = match start_ipart {
                Some(idx) => Some(ScufflePart::IPart(idx)),
                None => None,
            };
            ManifestStep::Request(
                RenditionSettings { scuffle_part: part, scuffle_dvr: dvr_enabled, hls_skip },
            )
        }
    } else {
        match refresh {
            ManifestRefresh::Never => ManifestStep::Wait,
            ManifestRefresh::IPart(idx) => ManifestStep::Request(
                RenditionSettings {
                    scuffle_part: Some(ScufflePart::IPart(idx)),
                    scuffle_dvr: dvr_enabled,
                    hls_skip,
                },
            ),
            ManifestRefresh::Part(idx) => ManifestStep::Request(
                RenditionSettings {
                    scuffle_part: Some(ScufflePart::Part(idx)),
                    scuffle_dvr: dvr_enabled,
                    hls_skip,
                },
            ),
            ManifestRefresh::Time => {
                if refresh_due {
                    ManifestStep::Request(
                        RenditionSettings { scuffle_part: None, scuffle_dvr: dvr_enabled, hls_skip },
                    )
                } else {
                    ManifestStep::Wait
                }
            },
        }
    }
}

/// Counts one more failed request: the retry waits one backoff step per
/// earlier failure, and the failure is fatal once the count passes the limit.
pub fn count_failure(count: u32) -> (r: Failure)
    requires
        count < u32::MAX,
    ensures
        r.count == count + 1,
        r.retry_delay_ms == count * ERROR_BACKOFF_MS,
        r.fatal == (count + 1 > MAX_ERROR_COUNT),
{
    let new_count = count + 1;
    assert(count as u64 * 250 <= 0xffff_ffff * 250) by (nonlinear_arith)
        requires count <= 0xffff_ffff;
    Failure {
        count: new_count,
        retry_delay_ms: count as u64 * ERROR_BACKOFF_MS as u64,
        fatal: new_count > MAX_ERROR_COUNT,
    }
}

/// Whether switching low-latency mode invalidates what a track has requested:
/// parts were requested but segments are wanted now, or the other way round.
pub fn latency_mode_changed(
    low_latency: bool,
    last_part: Option<u32>,
    last_segment: Option<u32>,
) -> (r: bool)
    ensures
        r == ((low_latency && last_segment is Some) || (!low_latency && last_part is Some)),
{
    (low_latency && last_segment.is_some()) || (!low_latency && last_part.is_some())
}

/// The refresh rule after a playlist arrives: none once it is finished, a
/// timed refresh otherwise.
pub open spec fn refresh_rule(finished: bool) -> ManifestRefresh {
    if finished {
        ManifestRefresh::Never
    } else {
        ManifestRefresh::Time
    }
}

/// The refresh rule after a playlist arrives: none once it is finished, a
/// timed refresh otherwise.
pub fn refresh_after_playlist(finished: bool) -> (r: ManifestRefresh)
    ensures
        r == refresh_rule(finished),
{
    if finished {
        ManifestRefresh::Never
    } else {
        ManifestRefresh::Time
    }
}


/// What a track starts from when it (re)starts.
#[derive(Debug, Clone, Copy, PartialEq, Eq, Structural)]
pub enum StartFrom {
    /// The newest independent part after this one.
    IPart(u32),
    /// A time that the caller keeps.
    Time,
}

/// When a track fetches its playlist and where it starts: the part of a
/// track's state that its start, stop and playlist events change.
#[derive(Debug, Clone, Copy, PartialEq, Eq, Structural)]
pub struct TrackSchedule {
    pub refresh: ManifestRefresh,
    pub start_from: Option<StartFrom>,
    pub finished: bool,
}

/// The schedule after choosing to start from the independent part after `idx`.
pub open spec fn after_start_at_ipart(s: TrackSchedule, idx: u32) -> TrackSchedule {
    TrackSchedule {
        start_from: Some(StartFrom::IPart(idx)),
        refresh: if s.finished { s.refresh } else { ManifestRefresh::IPart(idx) },
        ..s
    }
}

/// The schedule after choosing to start at part `idx`.
pub open spec fn after_start_at_part(s: TrackSchedule, idx: u32) -> TrackSchedule {
    TrackSchedule { refresh: if s.finished { s.refresh } else { ManifestRefresh::Part(idx) }, ..s }
}

/// The schedule after the track starts playing.
pub open spec fn after_start(s: TrackSchedule) -> TrackSchedule {
    TrackSchedule {
        start_from: None,
        refresh: if s.start_from is Some && !s.finished { ManifestRefresh::Time } else { s.refresh },
        ..s
    }
}

/// The schedule after the track stops.
pub open spec fn after_stop(s: TrackSchedule) -> TrackSchedule {
    TrackSchedule { refresh: if s.finished { s.refresh } else { ManifestRefresh::Time }, ..s }
}

/// The schedule after a playlist arrives.
pub open spec fn after_playlist(s: TrackSchedule, playlist_finished: bool) -> TrackSchedule {
    TrackSchedule {
        start_from: None,
        refresh: refresh_rule(playlist_finished),
        finished: s.finished || playlist_finished,
    }
}

impl TrackSchedule {
    /// A fresh track: its playlist is due at once, it starts from nowhere in
    /// particular and is not finished.
    pub fn new() -> (r: TrackSchedule)
        ensures
            r == (TrackSchedule { refresh: ManifestRefresh::Time, start_from: None, finished: false }),
    {
        TrackSchedule { refresh: ManifestRefresh::Time, start_from: None, finished: false }
    }

    /// Starts from the newest independent part after `idx`: an unfinished
    /// track fetches its playlist waiting for such a part.
    pub fn start_at_ipart(&mut self, idx: u32)
        ensures
            *final(self) == after_start_at_ipart(*old(self), idx),
    {
        self.start_from = Some(StartFrom::IPart(idx));
        if !self.finished {
            self.refresh = ManifestRefresh::IPart(idx);
        }
    }

    /// Starts at part `idx`: an unfinished track fetches its playlist
    /// waiting for that part.
    pub fn start_at_part(&mut self, idx: u32)
        ensures
            *final(self) == after_start_at_part(*old(self), idx),
    {
        if !self.finished {
            self.refresh = ManifestRefresh::Part(idx);
        }
    }

    /// Starts from a time that the caller keeps.
    pub fn start_from_time(&mut self)
        ensures
            *final(self) == (TrackSchedule { start_from: Some(StartFrom::Time), ..*old(self) }),
    {
        self.start_from = Some(StartFrom::Time);
    }

    /// The track starts playing: a pending start point is dropped and an
    /// unfinished track then fetches its playlist at once. Says whether the
    /// playlist became due now.
    pub fn start(&mut self) -> (due_now: bool)
        ensures
            *final(self) == after_start(*old(self)),
            due_now == (old(self).start_from is Some && !old(self).finished),
    {
        if self.start_from.is_some() {
            self.start_from = None;
            if !self.finished {
                self.refresh = ManifestRefresh::Time;
                return true;
            }
        }
        false
    }

    /// The track stops: an unfinished track's playlist becomes due at once.
    /// Says whether it did.
    pub fn stop(&mut self) -> (due_now: bool)
        ensures
            *final(self) == after_stop(*old(self)),
            due_now == !old(self).finished,
    {
        if !self.finished {
            self.refresh = ManifestRefresh::Time;
            true
        } else {
            false
        }
    }

    /// A playlist arrived: the start point is taken out and returned; a
    /// finished playlist finishes the track and ends refreshing, otherwise
    /// the next refresh is timed.
    pub fn playlist_received(&mut self, playlist_finished: bool) -> (start: Option<StartFrom>)
        ensures
            start == old(self).start_from,
            *final(self) == after_playlist(*old(self), playlist_finished),
    {
        let start = self.start_from;
        self.start_from = None;
        self.refresh = refresh_after_playlist(playlist_finished);
        if playlist_finished {
            self.finished = true;
        }
        start
    }

    /// The server reported the stream finished while media was requested:
    /// the track is finished and its playlist is due at once.
    pub fn finished_by_server(&mut self)
        ensures
            *final(self) == (TrackSchedule { finished: true, refresh: ManifestRefresh::Time, ..*old(self) }),
    {
        self.finished = true;
        self.refresh = ManifestRefresh::Time;
    }
}

/// Once a finished playlist has arrived, the track never asks for its
/// playlist again: choosing a start point, starting and stopping keep it
/// finished and without refreshes, and a later playlist does not undo it.
pub proof fn law_finished_track_stops_refreshing(s: TrackSchedule, idx: u32, later_finished: bool)
    ensures
        ({
            let f = after_playlist(s, true);
            &&& f.finished && f.refresh == ManifestRefresh::Never
            &&& after_start_at_ipart(f, idx).refresh == ManifestRefresh::Never
            &&& after_start_at_part(f, idx).refresh == ManifestRefresh::Never
            &&& after_start(f).refresh == ManifestRefresh::Never
            &&& after_stop(f).refresh == ManifestRefresh::Never
            &&& after_start_at_ipart(f, idx).finished && after_start_at_part(f, idx).finished
            &&& after_start(f).finished && after_stop(f).finished
            &&& after_playlist(f, later_finished).finished
        }),
{
}

/// A track that is not finished and has a playlist asks for a new playlist
/// as soon as it has stopped, whatever its error count, start point, known
/// segments and DVR setting.
pub proof fn law_stop_makes_playlist_due(
    s: TrackSchedule,
    error_count: u32,
    start_ipart: Option<u32>,
    regions_empty: bool,
    dvr_enabled: bool,
)
    requires
        !s.finished,
    ensures
        after_stop(s).refresh == ManifestRefresh::Time,
        manifest_step(true, error_count, after_stop(s).refresh, true, start_ipart, regions_empty, dvr_enabled)
            == ManifestStep::Request(
            RenditionSettings { scuffle_part: None, scuffle_dvr: dvr_enabled, hls_skip: !regions_empty },
        ),
{
}

/// The next media that a live track requests.
#[derive(Debug, Clone, PartialEq, Eq)]
pub enum LiveRequest {
    /// The part with this id and number.
    Part { id: String, idx: u32 },
    /// The segment with this id and number, at this position in the playlist.
    Segment { id: String, idx: u32, position: usize },
    /// Nothing to request yet.
    Nothing,
}

/// What a live request names, with ids as character sequences.
pub enum LiveTarget {
    Part { id: Seq<char>, idx: u32 },
    Segment { id: Seq<char>, idx: u32, position: int },
    Nothing,
}

impl View for LiveRequest {
    type V = LiveTarget;

    open spec fn view(&self) -> LiveTarget {
        match self {
            LiveRequest::Part { id, idx } => LiveTarget::Part { id: id@, idx: *idx },
            LiveRequest::Segment { id, idx, position } => LiveTarget::Segment {
                id: id@,
                idx: *idx,
                position: *position as int,
            },
            LiveRequest::Nothing => LiveTarget::Nothing,
        }
    }
}

/// The position of the first segment numbered above `after`, if any.
pub open spec fn first_segment_after(segs: Seq<RenditionPlaylistSegment>, after: u32) -> Option<int> {
    if exists|k: int| 0 <= k < segs.len() && segs[k].idx > after {
        Some(
            choose|k: int|
                0 <= k < segs.len() && segs[k].idx > after && forall|y: int|
                    0 <= y < k ==> segs[y].idx <= after,
        )
    } else {
        None
    }
}

/// The request for the segment at `k`, if it has an id.
pub open spec fn segment_target(segs: Seq<RenditionPlaylistSegment>, k: int) -> LiveTarget {
    match segs[k].id {
        Some(id) => LiveTarget::Segment { id: id@, idx: segs[k].idx, position: k },
        None => LiveTarget::Nothing,
    }
}

/// The position that a part number maps to: the first part for a number
/// before the first, its offset otherwise.
pub open spec fn part_offset(m: RenditionPlaylist, idx: int) -> int {
    if idx < first_part_number(m) {
        0
    } else {
        idx - first_part_number(m)
    }
}

/// What a live track requests next. In low-latency mode it asks for the part
/// after the last one it asked for, or, before any, for the first part of the
/// newest segment. Otherwise it asks for the first segment numbered above the
/// last one it asked for, or, before any, for the segment before the newest.
/// A segment without an id is not requested.
pub open spec fn live_target(
    m: RenditionPlaylist,
    low_latency: bool,
    last_part: Option<u32>,
    last_segment: Option<u32>,
) -> LiveTarget {
    let segs = m.segments@;
    let parts = all_parts(m);
    if low_latency {
        match last_part {
            Some(p) => {
                let k = part_offset(m, p + 1);
                if k < parts.len() {
                    LiveTarget::Part { id: parts[k].0, idx: (p + 1) as u32 }
                } else {
                    LiveTarget::Nothing
                }
            },
            None => if segs.len() > 0 && segs.last().parts@.len() > 0 {
                let id = segs.last().parts@[0].id@;
                LiveTarget::Part {
                    id,
                    idx: (first_part_number(m) + part_pos(parts, id).unwrap()) as u32,
                }
            } else {
                LiveTarget::Nothing
            },
        }
    } else {
        match last_segment {
            Some(s) => match first_segment_after(segs, s) {
                Some(k) => segment_target(segs, k),
                None => LiveTarget::Nothing,
            },
            None => if segs.len() > 0 {
                segment_target(segs, if segs.len() >= 2 { segs.len() - 2 } else { 0 })
            } else {
                LiveTarget::Nothing
            },
        }
    }
}

/// Whether computing the next live request stays within `u32` numbering.
pub open spec fn live_request_fits(
    m: RenditionPlaylist,
    low_latency: bool,
    last_part: Option<u32>,
) -> bool {
    let segs = m.segments@;
    low_latency ==> match last_part {
        Some(p) => p < u32::MAX && all_parts(m).len() <= m.last_pre_fetch_part_idx + 1
            && m.last_pre_fetch_part_idx < u32::MAX,
        None => segs.len() > 0 && segs.last().parts@.len() > 0 ==> part_number_fits(
            m,
            segs.last().parts@[0].id@,
        ),
    }
}

/// When some part has id `id`, a first such part exists.
proof fn lemma_first_part_exists(parts: Seq<(Seq<char>, bool)>, id: Seq<char>, x: int)
    requires
        0 <= x < parts.len(),
        parts[x].0 == id,
    ensures
        exists|f: int|
            0 <= f < parts.len() && parts[f].0 == id && forall|y: int| 0 <= y < f ==> parts[y].0 != id,
    decreases x,
{
    if exists|y: int| 0 <= y < x && parts[y].0 == id {
        let y = choose|y: int| 0 <= y < x && parts[y].0 == id;
        lemma_first_part_exists(parts, id, y);
    } else {
        assert(forall|y: int| 0 <= y < x ==> parts[y].0 != id);
    }
}

/// The number that `part_idx` gives leads `part` back to the same part: for
/// an id that some part of the playlist has, `part_idx` finds the first part
/// with that id, at position `x` among all parts, and numbers it
/// `first_part_number + x`; that number is within `u32` and is at or after
/// the first part's number, so `part` maps it back to position `x`, whose id
/// is `id` and whose flag (announced ahead or not) is the one `part_idx` gives.
pub proof fn law_part_number_round_trip(m: RenditionPlaylist, id: Seq<char>)
    requires
        exists|w: int| 0 <= w < all_parts(m).len() && (#[trigger] all_parts(m)[w]).0 == id,
        part_number_fits(m, id),
    ensures
        part_pos(all_parts(m), id) is Some,
        ({
            let parts = all_parts(m);
            let x = part_pos(parts, id)->Some_0;
            let n = first_part_number(m) + x;
            &&& 0 <= x < parts.len()
            &&& parts[x] == (id, parts[x].1)
            &&& forall|y: int| 0 <= y < x ==> parts[y].0 != id
            &&& 0 <= n <= u32::MAX
            &&& (n as u32) as int == n
            &&& !((n as u32) < first_part_number(m))
            &&& part_offset(m, (n as u32) as int) == x
        }),
{
    let parts = all_parts(m);
    let w = choose|w: int| 0 <= w < parts.len() && (#[trigger] parts[w]).0 == id;
    lemma_first_part_exists(parts, id, w);
}

/// The first part of the newest segment is among the parts of the playlist.
proof fn lemma_last_segment_first_part(m: RenditionPlaylist)
    requires
        m.segments@.len() > 0,
        m.segments@.last().parts@.len() > 0,
    ensures
        part_pos(all_parts(m), m.segments@.last().parts@[0].id@) is Some,
{
    let segs = m.segments@;
    let x = segment_entries(segs.drop_last()).len() as int;
    assert(segment_entries(segs) == segment_entries(segs.drop_last()) + seg_entries(segs.last().parts@));
    assert(all_parts(m)[x] == seg_entries(segs.last().parts@)[0]);
    assert(all_parts(m)[x].0 == m.segments@.last().parts@[0].id@);
}

/// The first segment after `after`, found at `k`, is the one the spec names.
proof fn lemma_first_segment_after(segs: Seq<RenditionPlaylistSegment>, after: u32, k: int)
    requires
        0 <= k < segs.len(),
        segs[k].idx > after,
        forall|y: int| 0 <= y < k ==> segs[y].idx <= after,
    ensures
        first_segment_after(segs, after) == Some(k),
{
    let c = choose|c: int|
        0 <= c < segs.len() && segs[c].idx > after && forall|y: int| 0 <= y < c ==> segs[y].idx <= after;
    assert(0 <= c < segs.len() && segs[c].idx > after && forall|y: int|
        0 <= y < c ==> segs[y].idx <= after);
    if c < k {
        assert(segs[c].idx <= after);
    }
    if c > k {
        assert(segs[k].idx <= after);
    }
}

/// The request for the segment at `k`.
fn segment_request(segs: &Vec<RenditionPlaylistSegment>, k: usize) -> (r: LiveRequest)
    requires
        k < segs.len(),
    ensures
        r@ == segment_target(segs@, k as int),
{
    match &segs[k].id {
        Some(id) => LiveRequest::Segment { id: id.clone(), idx: segs[k].idx, position: k },
        None => LiveRequest::Nothing,
    }
}

/// Decides what a live track requests next, from the playlist, the latency
/// mode and the last part and segment it asked for.
pub fn next_live_request(
    m: &RenditionPlaylist,
    low_latency: bool,
    last_part: Option<u32>,
    last_segment: Option<u32>,
) -> (r: LiveRequest)
    requires
        live_request_fits(*m, low_latency, last_part),
    ensures
        r@ == live_target(*m, low_latency, last_part, last_segment),
{
    let n = m.segments.len();
    if low_latency {
        match last_part {
            Some(p) => {
                match m.part(p + 1) {
                    Some((id, _)) => LiveRequest::Part { id, idx: p + 1 },
                    None => LiveRequest::Nothing,
                }
            },
            None => {
                if n > 0 && m.segments[n - 1].parts.len() > 0 {
                    let id = &m.segments[n - 1].parts[0].id;
                    proof {
                        assert(m.segments@.last() == m.segments@[n - 1]);
                        lemma_last_segment_first_part(*m);
                    }
                    match m.part_idx(id.as_str()) {
                        Some((idx, _)) => LiveRequest::Part { id: id.clone(), idx },
                        None => LiveRequest::Nothing,
                    }
                } else {
                    LiveRequest::Nothing
                }
            },
        }
    } else {
        match last_segment {
            Some(s) => {
                let mut k: usize = 0;
                while k < n
                    invariant
                        !low_latency,
                        last_segment == Some(s),
                        n == m.segments@.len(),
                        k <= n,
                        forall|y: int| 0 <= y < k ==> m.segments@[y].idx <= s,
                    decreases n - k,
                {
                    if m.segments[k].idx > s {
                        proof {
                            lemma_first_segment_after(m.segments@, s, k as int);
                        }
                        return segment_request(&m.segments, k);
                    }
                    k = k + 1;
                }
                LiveRequest::Nothing
            },
            None => {
                if n > 0 {
                    let k = if n >= 2 { n - 2 } else { 0 };
                    segment_request(&m.segments, k)
                } else {
                    LiveRequest::Nothing
                }
            },
        }
    }
}


/// Where a track that starts from an independent part begins.
#[derive(Debug, Clone, Copy, PartialEq, Eq, Structural)]
pub struct IPartStart {
    /// The number of the part before the starting one, as the last part
    /// requested; none when the starting part is number zero.
    pub last_requested_part: Option<u32>,
    /// The position of the newest segment that holds the starting part.
    pub segment: usize,
    /// How many parts of that segment come before the starting part.
    pub parts_before: usize,
}

/// Whether some part of `parts` is independent.
pub open spec fn has_independent(parts: Seq<RenditionPlaylistSegmentPart>) -> bool {
    exists|i: int| 0 <= i < parts.len() && #[trigger] parts[i].independent
}

/// The position of the newest segment with an independent part, if any.
pub open spec fn last_independent_segment(segs: Seq<RenditionPlaylistSegment>) -> Option<int> {
    if exists|j: int| 0 <= j < segs.len() && has_independent(#[trigger] segs[j].parts@) {
        Some(
            choose|j: int|
                0 <= j < segs.len() && has_independent(segs[j].parts@) && forall|y: int|
                    j < y < segs.len() ==> !has_independent(#[trigger] segs[y].parts@),
        )
    } else {
        None
    }
}

/// The position of the last independent part of `parts`.
pub open spec fn last_independent_part(parts: Seq<RenditionPlaylistSegmentPart>) -> int {
    choose|i: int|
        0 <= i < parts.len() && parts[i].independent && forall|y: int|
            i < y < parts.len() ==> !(#[trigger] parts[y]).independent
}

/// Whether some part of `parts` has id `id`.
pub open spec fn holds_part(parts: Seq<RenditionPlaylistSegmentPart>, id: Seq<char>) -> bool {
    exists|i: int| 0 <= i < parts.len() && (#[trigger] parts[i]).id@ == id
}

/// The position of the newest segment holding a part with id `id`.
pub open spec fn last_segment_with(segs: Seq<RenditionPlaylistSegment>, id: Seq<char>) -> int {
    choose|j: int|
        0 <= j < segs.len() && holds_part(segs[j].parts@, id) && forall|y: int|
            j < y < segs.len() ==> !holds_part(#[trigger] segs[y].parts@, id)
}

/// The position of the first part of `parts` with id `id`.
pub open spec fn first_part_with(parts: Seq<RenditionPlaylistSegmentPart>, id: Seq<char>) -> int {
    choose|i: int|
        0 <= i < parts.len() && parts[i].id@ == id && forall|y: int|
            0 <= y < i ==> (#[trigger] parts[y]).id@ != id
}

/// The id of the newest independent part of the playlist.
pub open spec fn starting_part_id(m: RenditionPlaylist) -> Seq<char> {
    let segs = m.segments@;
    let j = last_independent_segment(segs).unwrap();
    segs[j].parts@[last_independent_part(segs[j].parts@)].id@
}

/// Whether the playlist has an independent part to start from, and its
/// number fits in `u32`.
pub open spec fn ipart_start_defined(m: RenditionPlaylist) -> bool {
    &&& last_independent_segment(m.segments@) is Some
    &&& part_number_fits(m, starting_part_id(m))
}

/// Where a track that starts from an independent part begins: at the newest
/// independent part, with the part before it as the last one requested.
pub open spec fn ipart_start(m: RenditionPlaylist) -> IPartStart {
    let id = starting_part_id(m);
    let number = first_part_number(m) + part_pos(all_parts(m), id).unwrap();
    let seg = last_segment_with(m.segments@, id);
    IPartStart {
        last_requested_part: if number >= 1 { Some((number - 1) as u32) } else { None },
        segment: seg as usize,
        parts_before: first_part_with(m.segments@[seg].parts@, id) as usize,
    }
}

/// Every part of every segment is among the parts of the segments.
proof fn lemma_segment_part_listed(segs: Seq<RenditionPlaylistSegment>, j: int, i: int)
    requires
        0 <= j < segs.len(),
        0 <= i < segs[j].parts@.len(),
    ensures
        exists|x: int|
            0 <= x < segment_entries(segs).len() && (#[trigger] segment_entries(segs)[x]).0
                == segs[j].parts@[i].id@,
    decreases segs.len(),
{
    let front = segs.drop_last();
    assert(segment_entries(segs) == segment_entries(front) + seg_entries(segs.last().parts@));
    if j == segs.len() - 1 {
        let x = segment_entries(front).len() + i;
        assert(segment_entries(segs)[x] == seg_entries(segs.last().parts@)[i]);
    } else {
        assert(front[j] == segs[j]);
        lemma_segment_part_listed(front, j, i);
        let x = choose|x: int|
            0 <= x < segment_entries(front).len() && (#[trigger] segment_entries(front)[x]).0
                == front[j].parts@[i].id@;
        assert(segment_entries(segs)[x] == segment_entries(front)[x]);
    }
}

/// Every part of every segment has a position among all parts.
proof fn lemma_segment_part_pos(m: RenditionPlaylist, j: int, i: int)
    requires
        0 <= j < m.segments@.len(),
        0 <= i < m.segments@[j].parts@.len(),
    ensures
        part_pos(all_parts(m), m.segments@[j].parts@[i].id@) is Some,
{
    lemma_segment_part_listed(m.segments@, j, i);
    let x = choose|x: int|
        0 <= x < segment_entries(m.segments@).len() && (#[trigger] segment_entries(
            m.segments@,
        )[x]).0 == m.segments@[j].parts@[i].id@;
    assert(all_parts(m)[x] == segment_entries(m.segments@)[x]);
}

/// The position of the last independent part of `parts`, if any.
fn find_last_independent(parts: &Vec<RenditionPlaylistSegmentPart>) -> (r: Option<usize>)
    ensures
        match r {
            Some(i) => i < parts@.len() && parts@[i as int].independent && forall|y: int|
                i < y < parts@.len() ==> !(#[trigger] parts@[y]).independent,
            None => !has_independent(parts@),
        },
{
    let mut i: usize = parts.len();
    while i > 0
        invariant
            i <= parts@.len(),
            forall|y: int| i <= y < parts@.len() ==> !(#[trigger] parts@[y]).independent,
        decreases i,
    {
        if parts[i - 1].independent {
            return Some(i - 1);
        }
        i = i - 1;
    }
    None
}

/// The position of the first part of `parts` with id `id`, if any.
fn find_part_with(parts: &Vec<RenditionPlaylistSegmentPart>, id: &String) -> (r: Option<usize>)
    ensures
        match r {
            Some(i) => i < parts@.len() && parts@[i as int].id@ == id@ && forall|y: int|
                0 <= y < i ==> (#[trigger] parts@[y]).id@ != id@,
            None => !holds_part(parts@, id@),
        },
{
    let mut i: usize = 0;
    while i < parts.len()
        invariant
            i <= parts@.len(),
            forall|y: int| 0 <= y < i ==> (#[trigger] parts@[y]).id@ != id@,
        decreases parts.len() - i,
    {
        if parts[i].id == *id {
            return Some(i);
        }
        i = i + 1;
    }
    None
}

/// The newest independent part: its segment and its position there.
fn find_starting_part(segs: &Vec<RenditionPlaylistSegment>) -> (r: (usize, usize))
    requires
        last_independent_segment(segs@) is Some,
    ensures
        r.0 < segs@.len(),
        r.0 == last_independent_segment(segs@).unwrap(),
        r.1 < segs@[r.0 as int].parts@.len(),
        r.1 == last_independent_part(segs@[r.0 as int].parts@),
{
    let n = segs.len();
    let mut j: usize = n;
    while j > 0
        invariant
            j <= n,
            n == segs@.len(),
            last_independent_segment(segs@) is Some,
            forall|y: int| j <= y < n ==> !has_independent(#[trigger] segs@[y].parts@),
        decreases j,
    {
        match find_last_independent(&segs[j - 1].parts) {
            Some(b) => {
                let a = j - 1;
                proof {
                    let c = last_independent_segment(segs@).unwrap();
                    assert(has_independent(segs@[a as int].parts@));
                    if c < a {
                        assert(!has_independent(segs@[a as int].parts@));
                    }
                    if c > a {
                        assert(!has_independent(segs@[c].parts@));
                    }
                    let parts = segs@[a as int].parts@;
                    let d = last_independent_part(parts);
                    assert(0 <= d < parts.len() && parts[d].independent);
                    if d < b {
                        assert(!parts[b as int].independent);
                    }
                    if d > b {
                        assert(!parts[d].independent);
                    }
                }
                return (a, b);
            },
            None => {},
        }
        j = j - 1;
    }
    proof {
        let w = choose|w: int| 0 <= w < segs@.len() && has_independent(#[trigger] segs@[w].parts@);
        assert(!has_independent(segs@[w].parts@));
    }
    (0, 0)
}

/// The newest segment holding a part with id `id`, and the position of the
/// first such part there.
fn find_holder(segs: &Vec<RenditionPlaylistSegment>, id: &String) -> (r: (usize, usize))
    requires
        exists|j: int| 0 <= j < segs@.len() && holds_part(#[trigger] segs@[j].parts@, id@),
    ensures
        r.0 < segs@.len(),
        r.0 == last_segment_with(segs@, id@),
        r.1 < segs@[r.0 as int].parts@.len(),
        r.1 == first_part_with(segs@[r.0 as int].parts@, id@),
{
    let n = segs.len();
    let mut k: usize = n;
    while k > 0
        invariant
            k <= n,
            n == segs@.len(),
            exists|j: int| 0 <= j < segs@.len() && holds_part(#[trigger] segs@[j].parts@, id@),
            forall|y: int| k <= y < n ==> !holds_part(#[trigger] segs@[y].parts@, id@),
        decreases k,
    {
        match find_part_with(&segs[k - 1].parts, id) {
            Some(pos) => {
                let holder = k - 1;
                proof {
                    let c = last_segment_with(segs@, id@);
                    assert(holds_part(segs@[holder as int].parts@, id@));
                    if c < holder {
                        assert(!holds_part(segs@[holder as int].parts@, id@));
                    }
                    if c > holder {
                        assert(!holds_part(segs@[c].parts@, id@));
                    }
                    let parts = segs@[holder as int].parts@;
                    let f = first_part_with(parts, id@);
                    assert(0 <= f < parts.len() && parts[f].id@ == id@);
                    if f < pos {
                        assert(parts[f].id@ != id@);
                    }
                    if f > pos {
                        assert(parts[pos as int].id@ != id@);
                    }
                }
                return (holder, pos);
            },
            None => {},
        }
        k = k - 1;
    }
    proof {
        let w = choose|w: int| 0 <= w < segs@.len() && holds_part(#[trigger] segs@[w].parts@, id@);
        assert(!holds_part(segs@[w].parts@, id@));
    }
    (0, 0)
}

impl RenditionPlaylist {
    /// Where a track that starts from an independent part begins: the newest
    /// independent part, the number before its number as the last requested
    /// part, and the newest segment that holds it with how many of its parts
    /// precede it.
    pub fn ipart_start(&self) -> (r: IPartStart)
        requires
            ipart_start_defined(*self),
        ensures
            r == ipart_start(*self),
    {
        let (a, b) = find_starting_part(&self.segments);
        let id = &self.segments[a].parts[b].id;
        proof {
            lemma_segment_part_pos(*self, a as int, b as int);
            assert(holds_part(self.segments@[a as int].parts@, id@));
        }
        let number = match self.part_idx(id.as_str()) {
            Some((x, _)) => x,
            None => 0,
        };
        let last_requested_part = number.checked_sub(1);
        let (holder, pos) = find_holder(&self.segments, id);
        IPartStart { last_requested_part, segment: holder, parts_before: pos }
    }

    /// Closes the playlist once the server reports it finished: the parts
    /// announced ahead are dropped, and the number of the last announced part
    /// goes back by as many (stopping at zero).
    pub fn finish_prefetch(&mut self)
        ensures
            prefetch_dropped(*old(self), *final(self)),
    {
        let len = self.pre_fetch_part_ids.len() as u32;
        self.last_pre_fetch_part_idx = self.last_pre_fetch_part_idx.saturating_sub(len);
        self.pre_fetch_part_ids.clear();
    }
}


/// The playlist `n` is `p` with the parts announced ahead dropped, and the
/// number of the last announced part gone back by as many (stopping at zero).
pub open spec fn prefetch_dropped(p: RenditionPlaylist, n: RenditionPlaylist) -> bool {
    &&& n.pre_fetch_part_ids@ == Seq::<String>::empty()
    &&& n.last_pre_fetch_part_idx == (if p.last_pre_fetch_part_idx >= (p.pre_fetch_part_ids@.len() as u32) {
        (p.last_pre_fetch_part_idx - (p.pre_fetch_part_ids@.len() as u32)) as u32
    } else {
        0
    })
    &&& n.segments == p.segments
    &&& n.init_segment_id == p.init_segment_id
    &&& n.init_dvr == p.init_dvr
    &&& n.finished == p.finished
    &&& n.renditions == p.renditions
    &&& n.msn == p.msn
    &&& n.skip_segments == p.skip_segments
    &&& n.dvr_prefix == p.dvr_prefix
    &&& n.thumbnail_prefix == p.thumbnail_prefix
}

/// The server reported the stream finished while media was requested: the
/// track is finished and its playlist is due at once, its queued requests
/// are dropped, and the parts its playlist announced ahead are dropped.
pub fn stream_finished_by_server<R>(
    schedule: &mut TrackSchedule,
    playlist: &mut RenditionPlaylist,
    queue: &mut RequestQueue<R>,
)
    ensures
        *final(schedule) == (TrackSchedule {
            finished: true,
            refresh: ManifestRefresh::Time,
            ..*old(schedule)
        }),
        final(queue)@ == Seq::<crate::player::requests::QueuedRequest<R>>::empty(),
        prefetch_dropped(*old(playlist), *final(playlist)),
{
    schedule.finished_by_server();
    queue.clear();
    playlist.finish_prefetch();
}

/// A playlist arrived: the failure count starts over, the schedule takes
/// the playlist (see `after_playlist`), and the start point it held is
/// given back.
pub fn receive_playlist(schedule: &mut TrackSchedule, error_count: &mut u32, playlist_finished: bool) -> (r:
    Option<StartFrom>)
    ensures
        *final(error_count) == 0,
        r == old(schedule).start_from,
        *final(schedule) == after_playlist(*old(schedule), playlist_finished),
{
    *error_count = 0;
    schedule.playlist_received(playlist_finished)
}

/// The recording prefix as a directory: the address `prefix` when its path
/// ends with `/`, else the address with `/` added to its path; none when
/// the prefix is no valid address.
pub open spec fn dvr_directory_of(prefix: Seq<char>) -> Option<Seq<char>> {
    match url_path(prefix) {
        None => None,
        Some(p) => if p.len() > 0 && p.last() == '/' {
            Some(prefix)
        } else {
            url_with_path(prefix, p.push('/'))
        },
    }
}

/// The recording prefix as a directory, so that segment names join onto it:
/// a path without a trailing `/` gets one.
pub fn dvr_directory(prefix: &str) -> (r: Option<String>)
    ensures
        opt_str(r) == dvr_directory_of(prefix@),
{
    match path_of_url(prefix) {
        None => None,
        Some(p) => {
            let v = crate::text::chars_of(p.as_str());
            let ends = v.len() > 0 && v[v.len() - 1] == '/';
            if ends {
                Some(String::from_str(prefix))
            } else {
                let mut q = p.clone();
                crate::text::push_char(&mut q, '/');
                replace_url_path(prefix, q.as_str())
            }
        },
    }
}

/// The recording prefix a track keeps after a playlist arrives: the
/// playlist's prefix as a directory when it has one that is a valid
/// address, the prefix kept before otherwise.
pub fn next_dvr_prefix(current: Option<String>, playlist_prefix: &Option<String>) -> (r: Option<
    String,
>)
    ensures
        opt_str(r) == match opt_str(*playlist_prefix) {
            Some(p) => match dvr_directory_of(p) {
                Some(d) => Some(d),
                None => opt_str(current),
            },
            None => opt_str(current),
        },
{
    match playlist_prefix {
        Some(p) => match dvr_directory(p.as_str()) {
            Some(d) => Some(d),
            None => current,
        },
        None => current,
    }
}

} // verus!
