//! Variants: an audio track, optionally with a video track, and the list
//! of variants a session offers.

use vstd::prelude::*;

use crate::player::inner::{NextVariant, NextVariantAutoCause};
use crate::types::{RoomPlaylistTrack, RoomPlaylistTrackAudio, RoomPlaylistTrackVideo};

verus! {

broadcast use vstd::seq_lib::group_to_multiset_ensures;

/// The audio track of a variant.
#[derive(Debug, Clone)]
pub struct AudioTrack {
    pub id: usize,
    pub name: String,
    pub codec: String,
    pub channels: u32,
    pub sample_rate: u32,
    pub bitrate: u32,
}

/// The video track of a variant.
#[derive(Debug, Clone)]
pub struct VideoTrack {
    pub id: usize,
    pub name: String,
    pub codec: String,
    pub width: u32,
    pub height: u32,
    pub frame_rate: u32,
    pub bitrate: u32,
}

/// A playable combination of tracks.
#[derive(Debug, Clone)]
pub struct Variant {
    pub audio_track: AudioTrack,
    pub video_track: Option<VideoTrack>,
}

/// What an audio track of a variant holds.
pub struct AudioTrackView {
    pub id: usize,
    pub name: Seq<char>,
    pub codec: Seq<char>,
    pub channels: u32,
    pub sample_rate: u32,
    pub bitrate: u32,
}

/// What a video track of a variant holds.
pub struct VideoTrackView {
    pub id: usize,
    pub name: Seq<char>,
    pub codec: Seq<char>,
    pub width: u32,
    pub height: u32,
    pub frame_rate: u32,
    pub bitrate: u32,
}

/// What a variant holds.
pub struct VariantView {
    pub audio_track: AudioTrackView,
    pub video_track: Option<VideoTrackView>,
}

impl View for Variant {
    type V = VariantView;

    open spec fn view(&self) -> VariantView {
        VariantView {
            audio_track: AudioTrackView {
                id: self.audio_track.id,
                name: self.audio_track.name@,
                codec: self.audio_track.codec@,
                channels: self.audio_track.channels,
                sample_rate: self.audio_track.sample_rate,
                bitrate: self.audio_track.bitrate,
            },
            video_track: match self.video_track {
                Some(v) => Some(
                    VideoTrackView {
                        id: v.id,
                        name: v.name@,
                        codec: v.codec@,
                        width: v.width,
                        height: v.height,
                        frame_rate: v.frame_rate,
                        bitrate: v.bitrate,
                    },
                ),
                None => None,
            },
        }
    }
}

/// The views of a sequence of variants.
pub open spec fn variant_views(v: Seq<Variant>) -> Seq<VariantView> {
    v.map_values(|x: Variant| x@)
}

/// The variant of audio track `a` (at index `ai`) and, optionally, video
/// track `v` (at index `vi`).
pub open spec fn variant_of(
    ai: usize,
    a: RoomPlaylistTrack<RoomPlaylistTrackAudio>,
    video: Option<(usize, RoomPlaylistTrack<RoomPlaylistTrackVideo>)>,
) -> VariantView {
    VariantView {
        audio_track: AudioTrackView {
            id: ai,
            name: a.name@,
            codec: a.codec@,
            channels: a.other.channels,
            sample_rate: a.other.sample_rate,
            bitrate: a.bitrate,
        },
        video_track: match video {
            Some((vi, v)) => Some(
                VideoTrackView {
                    id: vi,
                    name: v.name@,
                    codec: v.codec@,
                    width: v.other.width,
                    height: v.other.height,
                    frame_rate: v.other.frame_rate,
                    bitrate: v.bitrate,
                },
            ),
            None => None,
        },
    }
}

impl Variant {
    /// The variant of an audio track and, optionally, a video track, each
    /// given with its index in the session's track list.
    pub fn new(
        audio_track: (usize, &RoomPlaylistTrack<RoomPlaylistTrackAudio>),
        video_track: Option<(usize, &RoomPlaylistTrack<RoomPlaylistTrackVideo>)>,
    ) -> (r: Variant)
        ensures
            r@ == variant_of(
                audio_track.0,
                *audio_track.1,
                match video_track {
                    Some((vi, v)) => Some((vi, *v)),
                    None => None,
                },
            ),
    {
        Variant {
            audio_track: AudioTrack {
                id: audio_track.0,
                name: audio_track.1.name.clone(),
                codec: audio_track.1.codec.clone(),
                channels: audio_track.1.other.channels,
                sample_rate: audio_track.1.other.sample_rate,
                bitrate: audio_track.1.bitrate,
            },
            video_track: match video_track {
                Some((id, track)) => Some(
                    VideoTrack {
                        id,
                        name: track.name.clone(),
                        codec: track.codec.clone(),
                        width: track.other.width,
                        height: track.other.height,
                        frame_rate: track.other.frame_rate,
                        bitrate: track.bitrate,
                    },
                ),
                None => None,
            },
        }
    }
}

/// The combined bitrate of a variant.
pub open spec fn total_bitrate(v: VariantView) -> int {
    v.audio_track.bitrate + match v.video_track {
        Some(t) => t.bitrate as int,
        None => 0,
    }
}

/// The variants of audio track `ai`: audio only first, then with each video track in order.
pub open spec fn audio_block(
    audio: Seq<RoomPlaylistTrack<RoomPlaylistTrackAudio>>,
    video: Seq<RoomPlaylistTrack<RoomPlaylistTrackVideo>>,
    ai: int,
) -> Seq<VariantView> {
    seq![variant_of(ai as usize, audio[ai], None)] + Seq::new(
        video.len(),
        |j: int| variant_of(ai as usize, audio[ai], Some((j as usize, video[j]))),
    )
}

/// The variants of the first `n` audio tracks, in order.
pub open spec fn candidate_variants(
    audio: Seq<RoomPlaylistTrack<RoomPlaylistTrackAudio>>,
    video: Seq<RoomPlaylistTrack<RoomPlaylistTrackVideo>>,
    n: int,
) -> Seq<VariantView>
    decreases n,
{
    if n <= 0 {
        seq![]
    } else {
        candidate_variants(audio, video, n - 1) + audio_block(audio, video, n - 1)
    }
}

/// Whether variants are ordered from the highest combined bitrate down.
pub open spec fn bitrate_descending(v: Seq<VariantView>) -> bool {
    forall|i: int, j: int| 0 <= i < j < v.len() ==> total_bitrate(v[i]) >= total_bitrate(v[j])
}

/// Every combined bitrate fits in a `u32`.
pub open spec fn bitrates_fit(
    audio: Seq<RoomPlaylistTrack<RoomPlaylistTrackAudio>>,
    video: Seq<RoomPlaylistTrack<RoomPlaylistTrackVideo>>,
) -> bool {
    forall|i: int, j: int|
        0 <= i < audio.len() && 0 <= j < video.len() ==> audio[i].bitrate + video[j].bitrate
            <= u32::MAX
}

/// The combined bitrate of a variant.
fn variant_bitrate(v: &Variant) -> (r: u32)
    requires
        total_bitrate(v@) <= u32::MAX,
    ensures
        r == total_bitrate(v@),
{
    v.audio_track.bitrate + match &v.video_track {
        Some(t) => t.bitrate,
        None => 0,
    }
}

/// Inserts a variant into a list ordered from the highest combined bitrate
/// down, after the variants with a higher or equal bitrate.
fn insert_by_bitrate(list: &mut Vec<Variant>, v: Variant)
    requires
        bitrate_descending(variant_views(old(list)@)),
        forall|i: int| 0 <= i < old(list)@.len() ==> total_bitrate(#[trigger] old(list)@[i]@) <= u32::MAX,
        total_bitrate(v@) <= u32::MAX,
    ensures
        bitrate_descending(variant_views(final(list)@)),
        forall|i: int| 0 <= i < final(list)@.len() ==> total_bitrate(#[trigger] final(list)@[i]@) <= u32::MAX,
        variant_views(final(list)@).to_multiset() == variant_views(old(list)@).to_multiset().insert(
            v@,
        ),
{
    let b = variant_bitrate(&v);
    let mut k: usize = 0;
    while k < list.len() && variant_bitrate(&list[k]) >= b
        invariant
            k <= list.len(),
            list@ == old(list)@,
            bitrate_descending(variant_views(list@)),
            forall|i: int| 0 <= i < list@.len() ==> total_bitrate(#[trigger] list@[i]@) <= u32::MAX,
            forall|i: int| 0 <= i < k ==> total_bitrate(#[trigger] list@[i]@) >= b,
        decreases list.len() - k,
    {
        k = k + 1;
    }
    let ghost before = variant_views(list@);
    let ghost vv = v@;
    list.insert(k, v);
    proof {
        assert(variant_views(list@) == before.insert(k as int, vv));
        assert(k < before.len() ==> total_bitrate(before[k as int]) < b);
        let after = variant_views(list@);
        assert forall|i: int, j: int| 0 <= i < j < after.len() implies total_bitrate(after[i])
            >= total_bitrate(after[j]) by {
            if i < k && j == k {
            } else if i < k && j > k {
                assert(after[j] == before[j - 1]);
                assert(total_bitrate(before[j - 1]) <= total_bitrate(before[k as int]) || j - 1 == k
                    || j - 1 < k);
            } else if i == k && j > k {
                assert(after[j] == before[j - 1]);
                assert(total_bitrate(before[k as int]) >= total_bitrate(before[j - 1]));
            } else if i > k {
                assert(after[i] == before[i - 1]);
                assert(after[j] == before[j - 1]);
            } else {
                assert(after[i] == before[i]);
                assert(after[j] == before[j]);
            }
        }
    }
}

/// The variants of a session, from the highest combined bitrate down: for
/// each audio track, the audio-only variant and one variant with each video
/// track. The order among variants of equal bitrate is left open.
pub fn build_variants(
    audio: &Vec<RoomPlaylistTrack<RoomPlaylistTrackAudio>>,
    video: &Vec<RoomPlaylistTrack<RoomPlaylistTrackVideo>>,
) -> (r: Vec<Variant>)
    requires
        bitrates_fit(audio@, video@),
    ensures
        bitrate_descending(variant_views(r@)),
        variant_views(r@).to_multiset() == candidate_variants(
            audio@,
            video@,
            audio@.len() as int,
        ).to_multiset(),
        forall|k: int|
            0 <= k < r@.len() ==> carries_session_tracks(audio@, video@, #[trigger] variant_views(r@)[k]),
        forall|i: int, j: int|
            0 <= i < audio@.len() && 0 <= j < video@.len() ==> #[trigger] pairs_tracks(variant_views(r@), i, j),
        forall|i: int| 0 <= i < audio@.len() ==> #[trigger] has_audio_only(variant_views(r@), i),
{
    let mut list: Vec<Variant> = Vec::new();
    let mut ai: usize = 0;
    proof {
        assert(variant_views(list@) == Seq::<VariantView>::empty());
        assert(candidate_variants(audio@, video@, 0) == Seq::<VariantView>::empty());
    }
    while ai < audio.len()
        invariant
            ai <= audio.len(),
            bitrates_fit(audio@, video@),
            bitrate_descending(variant_views(list@)),
            forall|i: int| 0 <= i < list@.len() ==> total_bitrate(#[trigger] list@[i]@) <= u32::MAX,
            variant_views(list@).to_multiset() == candidate_variants(
                audio@,
                video@,
                ai as int,
            ).to_multiset(),
        decreases audio.len() - ai,
    {
        let ghost c = candidate_variants(audio@, video@, ai as int);
        let ghost blk = audio_block(audio@, video@, ai as int);
        let only = Variant::new((ai, &audio[ai]), None);
        proof {
            assert(only@ == blk[0]);
        }
        insert_by_bitrate(&mut list, only);
        proof {
            assert(c + blk.take(1) == c.push(blk[0]));
        }
        let mut vi: usize = 0;
        while vi < video.len()
            invariant
                ai < audio.len(),
                vi <= video.len(),
                bitrates_fit(audio@, video@),
                c == candidate_variants(audio@, video@, ai as int),
                blk == audio_block(audio@, video@, ai as int),
                blk.len() == video.len() + 1,
                bitrate_descending(variant_views(list@)),
                forall|i: int| 0 <= i < list@.len() ==> total_bitrate(#[trigger] list@[i]@) <= u32::MAX,
                variant_views(list@).to_multiset() == (c + blk.take(vi + 1)).to_multiset(),
            decreases video.len() - vi,
        {
            let v = Variant::new((ai, &audio[ai]), Some((vi, &video[vi])));
            proof {
                assert(v@ == blk[vi + 1]);
                assert(audio@[ai as int].bitrate + video@[vi as int].bitrate <= u32::MAX);
            }
            insert_by_bitrate(&mut list, v);
            proof {
                assert(c + blk.take(vi + 2) == (c + blk.take(vi + 1)).push(blk[vi + 1]));
            }
            vi = vi + 1;
        }
        proof {
            assert(blk.take(vi + 1) == blk);
            assert(candidate_variants(audio@, video@, ai + 1) == c + blk);
        }
        ai = ai + 1;
    }
    let video_count = video.len();
    proof {
        assert(video@.len() == video_count);
        law_variants_pair_session_tracks(audio@, video@, variant_views(list@));
    }
    list
}


/// Whether `w` carries the session's audio track at its own id, unchanged,
/// and, when it has video, the session's video track at its own id.
pub open spec fn carries_session_tracks(
    audio: Seq<RoomPlaylistTrack<RoomPlaylistTrackAudio>>,
    video: Seq<RoomPlaylistTrack<RoomPlaylistTrackVideo>>,
    w: VariantView,
) -> bool {
    let ai = w.audio_track.id as int;
    &&& 0 <= ai < audio.len()
    &&& w.audio_track.name == audio[ai].name@
    &&& w.audio_track.codec == audio[ai].codec@
    &&& w.audio_track.channels == audio[ai].other.channels
    &&& w.audio_track.sample_rate == audio[ai].other.sample_rate
    &&& w.audio_track.bitrate == audio[ai].bitrate
    &&& match w.video_track {
        Some(v) => {
            let vi = v.id as int;
            &&& 0 <= vi < video.len()
            &&& v.name == video[vi].name@
            &&& v.codec == video[vi].codec@
            &&& v.width == video[vi].other.width
            &&& v.height == video[vi].other.height
            &&& v.frame_rate == video[vi].other.frame_rate
            &&& v.bitrate == video[vi].bitrate
        },
        None => true,
    }
}

/// Whether `vs` has a variant pairing audio track `i` with video track `j`.
pub open spec fn pairs_tracks(vs: Seq<VariantView>, i: int, j: int) -> bool {
    exists|k: int|
        0 <= k < vs.len() && (#[trigger] vs[k]).audio_track.id == i && (match vs[k].video_track {
            Some(v) => v.id == j,
            None => false,
        })
}

/// Whether `vs` has an audio-only variant of audio track `i`.
pub open spec fn has_audio_only(vs: Seq<VariantView>, i: int) -> bool {
    exists|k: int| 0 <= k < vs.len() && (#[trigger] vs[k]).audio_track.id == i && vs[k].video_track is None
}

/// The candidates for the first `n` audio tracks carry the session's
/// tracks, and pair each of those audio tracks with every video track and
/// with no video.
proof fn lemma_candidates_cover(
    audio: Seq<RoomPlaylistTrack<RoomPlaylistTrackAudio>>,
    video: Seq<RoomPlaylistTrack<RoomPlaylistTrackVideo>>,
    n: int,
)
    requires
        0 <= n <= audio.len(),
        audio.len() <= usize::MAX,
        video.len() <= usize::MAX,
    ensures
        forall|k: int|
            0 <= k < candidate_variants(audio, video, n).len() ==> carries_session_tracks(
                audio,
                video,
                #[trigger] candidate_variants(audio, video, n)[k],
            ),
        forall|i: int, j: int|
            0 <= i < n && 0 <= j < video.len() ==> #[trigger] pairs_tracks(candidate_variants(audio, video, n), i, j),
        forall|i: int| 0 <= i < n ==> #[trigger] has_audio_only(candidate_variants(audio, video, n), i),
    decreases n,
{
    if n > 0 {
        lemma_candidates_cover(audio, video, n - 1);
        let c = candidate_variants(audio, video, n - 1);
        let blk = audio_block(audio, video, n - 1);
        let all = candidate_variants(audio, video, n);
        assert(all == c + blk);
        assert forall|k: int| 0 <= k < all.len() implies carries_session_tracks(audio, video, #[trigger] all[k]) by {
            if k < c.len() {
                assert(all[k] == c[k]);
            } else {
                assert(all[k] == blk[k - c.len()]);
            }
        }
        assert forall|i: int, j: int| 0 <= i < n && 0 <= j < video.len() implies #[trigger] pairs_tracks(all, i, j) by {
            if i < n - 1 {
                assert(pairs_tracks(c, i, j));
                let k = choose|k: int|
                    0 <= k < c.len() && (#[trigger] c[k]).audio_track.id == i && (match c[k].video_track {
                        Some(v) => v.id == j,
                        None => false,
                    });
                assert(all[k] == c[k]);
            } else {
                let k = c.len() + 1 + j;
                assert(all[k] == blk[1 + j]);
            }
        }
        assert forall|i: int| 0 <= i < n implies #[trigger] has_audio_only(all, i) by {
            if i < n - 1 {
                assert(has_audio_only(c, i));
                let k = choose|k: int| 0 <= k < c.len() && (#[trigger] c[k]).audio_track.id == i && c[k].video_track is None;
                assert(all[k] == c[k]);
            } else {
                assert(all[c.len() as int] == blk[0]);
            }
        }
    }
}

/// Any arrangement of a session's candidate variants, as `build_variants`
/// returns them, carries in every variant the session's audio track at that
/// variant's audio id (and its video track at its video id), pairs every
/// audio track with every video track, and has an audio-only variant for
/// every audio track.
pub proof fn law_variants_pair_session_tracks(
    audio: Seq<RoomPlaylistTrack<RoomPlaylistTrackAudio>>,
    video: Seq<RoomPlaylistTrack<RoomPlaylistTrackVideo>>,
    r: Seq<VariantView>,
)
    requires
        audio.len() <= usize::MAX,
        video.len() <= usize::MAX,
        r.to_multiset() == candidate_variants(audio, video, audio.len() as int).to_multiset(),
    ensures
        forall|k: int| 0 <= k < r.len() ==> carries_session_tracks(audio, video, #[trigger] r[k]),
        forall|i: int, j: int|
            0 <= i < audio.len() && 0 <= j < video.len() ==> #[trigger] pairs_tracks(r, i, j),
        forall|i: int| 0 <= i < audio.len() ==> #[trigger] has_audio_only(r, i),
{
    let c = candidate_variants(audio, video, audio.len() as int);
    lemma_candidates_cover(audio, video, audio.len() as int);
    assert forall|k: int| 0 <= k < r.len() implies carries_session_tracks(audio, video, #[trigger] r[k]) by {
        assert(r.contains(r[k]));
        assert(r.to_multiset().count(r[k]) > 0);
        assert(c.contains(r[k]));
        let x = choose|x: int| 0 <= x < c.len() && c[x] == r[k];
        assert(carries_session_tracks(audio, video, c[x]));
    }
    assert forall|i: int, j: int| 0 <= i < audio.len() && 0 <= j < video.len() implies #[trigger] pairs_tracks(r, i, j) by {
        assert(pairs_tracks(c, i, j));
        let x = choose|x: int|
            0 <= x < c.len() && (#[trigger] c[x]).audio_track.id == i && (match c[x].video_track {
                Some(v) => v.id == j,
                None => false,
            });
        assert(c.contains(c[x]));
        assert(r.to_multiset().count(c[x]) > 0);
        assert(r.contains(c[x]));
        let k = choose|k: int| 0 <= k < r.len() && r[k] == c[x];
        assert(r[k].audio_track.id == i);
    }
    assert forall|i: int| 0 <= i < audio.len() implies #[trigger] has_audio_only(r, i) by {
        assert(has_audio_only(c, i));
        let x = choose|x: int| 0 <= x < c.len() && (#[trigger] c[x]).audio_track.id == i && c[x].video_track is None;
        assert(c.contains(c[x]));
        assert(r.to_multiset().count(c[x]) > 0);
        assert(r.contains(c[x]));
        let k = choose|k: int| 0 <= k < r.len() && r[k] == c[x];
        assert(r[k].audio_track.id == i);
    }
}

/// The position of the first variant without video, if any.
pub open spec fn first_audio_only(vs: Seq<VariantView>) -> Option<int> {
    if exists|i: int| 0 <= i < vs.len() && (#[trigger] vs[i]).video_track is None {
        Some(
            choose|i: int|
                0 <= i < vs.len() && vs[i].video_track is None && forall|j: int|
                    0 <= j < i ==> (#[trigger] vs[j]).video_track is Some,
        )
    } else {
        None
    }
}

/// The first variant without video found at `i` is the one the spec names.
proof fn lemma_first_audio_only(vs: Seq<VariantView>, i: int)
    requires
        0 <= i < vs.len(),
        vs[i].video_track is None,
        forall|j: int| 0 <= j < i ==> (#[trigger] vs[j]).video_track is Some,
    ensures
        first_audio_only(vs) == Some(i),
{
    let c = choose|c: int|
        0 <= c < vs.len() && vs[c].video_track is None && forall|j: int|
            0 <= j < c ==> (#[trigger] vs[j]).video_track is Some;
    assert(0 <= c < vs.len() && vs[c].video_track is None && forall|j: int|
        0 <= j < c ==> (#[trigger] vs[j]).video_track is Some);
    if c < i {
        assert(vs[c].video_track is Some);
    }
    if c > i {
        assert(vs[i].video_track is Some);
    }
}

/// The position of the first variant without video, if any.
pub fn audio_only_variant(variants: &Vec<Variant>) -> (r: Option<usize>)
    ensures
        match first_audio_only(variant_views(variants@)) {
            Some(i) => r == Some(i as usize),
            None => r is None,
        },
{
    let ghost vs = variant_views(variants@);
    let mut i: usize = 0;
    while i < variants.len()
        invariant
            i <= variants@.len(),
            vs == variant_views(variants@),
            forall|j: int| 0 <= j < i ==> (#[trigger] vs[j]).video_track is Some,
        decreases variants.len() - i,
    {
        if variants[i].video_track.is_none() {
            proof {
                lemma_first_audio_only(vs, i as int);
            }
            return Some(i);
        }
        assert(vs[i as int].video_track is Some);
        i = i + 1;
    }
    assert(!(exists|k: int| 0 <= k < vs.len() && (#[trigger] vs[k]).video_track is None));
    None
}

/// When the page has been hidden long enough, a player that may fall back
/// to audio only, has no variant change pending, plays in realtime and has
/// an active video track switches to the first variant without video,
/// remembering the variant it played (`current`). Otherwise nothing changes.
pub fn audio_only_switch(
    auto_audio_only: bool,
    change_pending: bool,
    realtime_mode: bool,
    has_active_video: bool,
    variants: &Vec<Variant>,
    current: u32,
) -> (r: Option<(NextVariant, u32)>)
    ensures
        r == (if auto_audio_only && !change_pending && realtime_mode && has_active_video {
            match first_audio_only(variant_views(variants@)) {
                Some(i) => Some(
                    (
                        NextVariant::Auto { id: (i as usize) as u32, cause: NextVariantAutoCause::Visibility },
                        current,
                    ),
                ),
                None => None,
            }
        } else {
            None
        }),
{
    if !(auto_audio_only && !change_pending && realtime_mode && has_active_video) {
        return None;
    }
    match audio_only_variant(variants) {
        Some(i) => Some(
            (
                NextVariant::Auto {
                    id: #[verifier::truncate] (i as u32),
                    cause: NextVariantAutoCause::Visibility,
                },
                current,
            ),
        ),
        None => None,
    }
}

/// When the page becomes visible again after an audio-only fallback, the
/// player goes back: to the variant that adaptive selection picks when it
/// is on and picks one, else to the variant it played before.
pub fn visibility_return(saved: Option<u32>, abr_enabled: bool, abr_choice: Option<u32>) -> (r: Option<
    NextVariant,
>)
    ensures
        r == match saved {
            Some(old) => Some(
                NextVariant::Auto {
                    id: if abr_enabled {
                        match abr_choice {
                            Some(c) => c,
                            None => old,
                        }
                    } else {
                        old
                    },
                    cause: NextVariantAutoCause::Visibility,
                },
            ),
            None => None,
        },
{
    match saved {
        Some(old) => {
            let id = if abr_enabled {
                match abr_choice {
                    Some(c) => c,
                    None => old,
                }
            } else {
                old
            };
            Some(NextVariant::Auto { id, cause: NextVariantAutoCause::Visibility })
        },
        None => None,
    }
}

} // verus!
