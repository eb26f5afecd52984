//! Switching between variants: which audio and video tracks to stop and
//! start when a new variant is requested.
//!
//! A forced switch replaces the active tracks at once. Otherwise the new
//! tracks start as pending tracks next to the active ones, and the runner
//! swaps them in once they have caught up.

use vstd::prelude::*;

use crate::player::inner::{NextVariant, NextVariantAutoCause};

verus! {

/// The active tracks and the tracks being switched to (indices into the
/// runner's audio and video track lists).
#[derive(Debug, Clone, Copy, PartialEq, Eq, Structural)]
pub struct TrackSlots {
    pub active_audio: usize,
    pub next_audio: Option<usize>,
    pub active_video: Option<usize>,
    pub next_video: Option<usize>,
}

/// Where a track that starts from a time starts.
#[derive(Debug, Clone, Copy, PartialEq, Eq, Structural)]
pub enum StartTime {
    /// The current player time.
    PlayerTime,
    /// The end of the buffered range around the player time, or one second
    /// after the player time when nothing is buffered there.
    BufferEnd,
    /// The end of the requested range of this audio track around the player
    /// time, or the player time.
    AudioRangeEnd(usize),
    /// The end of the requested range of this video track around the player
    /// time, or the player time when there is no such track or range.
    VideoRangeEnd(Option<usize>),
}

/// One step that the runner takes to carry out a switch, in order.
#[derive(Debug, Clone, Copy, PartialEq, Eq, Structural)]
pub enum SwitchAction {
    /// Drop the audio held back for a pending audio track.
    ClearAudioBuffer,
    /// Drop the video held back for a pending video track.
    ClearVideoBuffer,
    StopAudio(usize),
    StopVideo(usize),
    /// Stop generating blank video.
    DropVideoFactory,
    /// Start generating blank video at the timescale of this audio track.
    CreateVideoFactory(usize),
    /// Start the track at the last independent part that the `reporter`
    /// audio track's playlist reports for the track's rendition.
    StartAudioAtPart { track: usize, reporter: usize },
    /// Start the track at the first independent part after the one that the
    /// `reporter` audio track's playlist reports for the track's rendition.
    StartAudioAtIndependentPart { track: usize, reporter: usize },
    StartAudioFrom(usize, StartTime),
    StartVideoAtPart { track: usize, reporter: usize },
    StartVideoAtIndependentPart { track: usize, reporter: usize },
    StartVideoFrom(usize, StartTime),
}

/// The event announcing a finished variant switch.
#[derive(Debug, Clone, Copy, PartialEq, Eq, Structural)]
pub struct VariantEvent {
    /// The variant now playing.
    pub variant_id: u32,
    /// Why it was chosen, when the player chose it.
    pub automatic: Option<NextVariantAutoCause>,
    /// The variant played before.
    pub previous_variant_id: i32,
}

/// The outcome of one switching step.
#[derive(Debug, Clone)]
pub struct SwitchPlan {
    /// The track slots afterwards.
    pub slots: TrackSlots,
    /// What the runner does, in order.
    pub actions: Vec<SwitchAction>,
    /// Whether the active tracks are those of the requested variant.
    pub switched: bool,
    /// The event to emit, when the switch finished and changed the variant.
    pub event: Option<VariantEvent>,
}

/// What a switching step decides.
pub struct SwitchPlanView {
    pub slots: TrackSlots,
    pub actions: Seq<SwitchAction>,
    pub switched: bool,
    pub event: Option<VariantEvent>,
}

impl View for SwitchPlan {
    type V = SwitchPlanView;

    open spec fn view(&self) -> SwitchPlanView {
        SwitchPlanView {
            slots: self.slots,
            actions: self.actions@,
            switched: self.switched,
            event: self.event,
        }
    }
}

/// The steps that abandon a pending audio track.
pub open spec fn drop_pending_audio(next: Option<usize>) -> Seq<SwitchAction> {
    match next {
        Some(a) => seq![SwitchAction::ClearAudioBuffer, SwitchAction::StopAudio(a)],
        None => seq![],
    }
}

/// The steps that abandon a pending video track.
pub open spec fn drop_pending_video(next: Option<usize>) -> Seq<SwitchAction> {
    match next {
        Some(v) => seq![SwitchAction::ClearVideoBuffer, SwitchAction::StopVideo(v)],
        None => seq![],
    }
}

/// The audio half of a switch to audio track `ta`.
///
/// When `ta` is already the active audio track, a pending audio switch is
/// abandoned: its held-back audio is dropped and the pending audio track is
/// stopped.
///
/// `live` is realtime mode with low latency on: tracks then start at parts.
pub open spec fn audio_plan(s: TrackSlots, ta: usize, force: bool, live: bool, realtime: bool) -> (
    TrackSlots,
    Seq<SwitchAction>,
) {
    if s.active_audio != ta {
        if force {
            let start = if live {
                SwitchAction::StartAudioAtPart { track: ta, reporter: s.active_audio }
            } else {
                SwitchAction::StartAudioFrom(ta, StartTime::PlayerTime)
            };
            (
                TrackSlots { active_audio: ta, next_audio: None, ..s },
                drop_pending_audio(s.next_audio) + seq![SwitchAction::StopAudio(s.active_audio), start],
            )
        } else if s.next_audio != Some(ta) {
            let start = if live {
                SwitchAction::StartAudioAtIndependentPart { track: ta, reporter: s.active_audio }
            } else if realtime {
                SwitchAction::StartAudioFrom(ta, StartTime::BufferEnd)
            } else {
                SwitchAction::StartAudioFrom(ta, StartTime::AudioRangeEnd(s.active_audio))
            };
            (TrackSlots { next_audio: Some(ta), ..s }, drop_pending_audio(s.next_audio) + seq![start])
        } else {
            (s, seq![])
        }
    } else {
        match s.next_audio {
            Some(a) => (
                TrackSlots { next_audio: None, ..s },
                seq![SwitchAction::ClearAudioBuffer, SwitchAction::StopAudio(a)],
            ),
            None => (s, seq![]),
        }
    }
}

/// The video half of a switch to video track `tv` (none: audio only).
pub open spec fn video_plan(
    s: TrackSlots,
    tv: Option<usize>,
    force: bool,
    live: bool,
    realtime: bool,
) -> (TrackSlots, Seq<SwitchAction>) {
    match tv {
        Some(v) => if s.active_video != Some(v) {
            if force {
                let stop = match s.active_video {
                    Some(x) => SwitchAction::StopVideo(x),
                    None => SwitchAction::DropVideoFactory,
                };
                let start = if live {
                    SwitchAction::StartVideoAtPart { track: v, reporter: s.active_audio }
                } else {
                    SwitchAction::StartVideoFrom(v, StartTime::PlayerTime)
                };
                (
                    TrackSlots { active_video: Some(v), next_video: None, ..s },
                    drop_pending_video(s.next_video) + seq![stop, start],
                )
            } else if s.next_video != Some(v) {
                let start = if live {
                    SwitchAction::StartVideoAtIndependentPart { track: v, reporter: s.active_audio }
                } else if realtime {
                    SwitchAction::StartVideoFrom(v, StartTime::BufferEnd)
                } else {
                    SwitchAction::StartVideoFrom(v, StartTime::VideoRangeEnd(s.active_video))
                };
                (TrackSlots { next_video: Some(v), ..s }, drop_pending_video(s.next_video) + seq![start])
            } else {
                (s, seq![])
            }
        } else {
            (TrackSlots { next_video: None, ..s }, drop_pending_video(s.next_video))
        },
        None => match s.active_video {
            Some(x) => (
                TrackSlots { active_video: None, ..s },
                seq![SwitchAction::CreateVideoFactory(s.active_audio), SwitchAction::StopVideo(x)],
            ),
            None => (s, seq![]),
        },
    }
}

/// One switching step towards variant `next`, whose tracks are `ta` and `tv`.
///
/// The audio half runs first, then the video half; the switch is done when
/// the active tracks are the variant's. A finished switch to a variant other
/// than `current_variant_id` is announced.
pub open spec fn switch_plan(
    s: TrackSlots,
    next: NextVariant,
    ta: usize,
    tv: Option<usize>,
    realtime: bool,
    low_latency: bool,
    current_variant_id: u32,
) -> SwitchPlanView {
    let force = next is Force;
    let live = realtime && low_latency;
    let (s1, a) = audio_plan(s, ta, force, live, realtime);
    let (s2, b) = video_plan(s1, tv, force, live, realtime);
    let switched = s2.active_audio == ta && s2.active_video == tv;
    SwitchPlanView {
        slots: s2,
        actions: a + b,
        switched: switched,
        event: if switched && current_variant_id != next.spec_variant_id() {
            Some(
                VariantEvent {
                    variant_id: next.spec_variant_id(),
                    automatic: match next {
                        NextVariant::Auto { cause, .. } => Some(cause),
                        _ => None,
                    },
                    previous_variant_id: current_variant_id as i32,
                },
            )
        } else {
            None
        },
    }
}

/// Adds the steps that abandon a pending audio track.
fn push_drop_pending_audio(actions: &mut Vec<SwitchAction>, next: Option<usize>)
    ensures
        final(actions)@ == old(actions)@ + drop_pending_audio(next),
{
    match next {
        Some(a) => {
            actions.push(SwitchAction::ClearAudioBuffer);
            actions.push(SwitchAction::StopAudio(a));
        },
        None => {},
    }
}

/// Adds the steps that abandon a pending video track.
fn push_drop_pending_video(actions: &mut Vec<SwitchAction>, next: Option<usize>)
    ensures
        final(actions)@ == old(actions)@ + drop_pending_video(next),
{
    match next {
        Some(v) => {
            actions.push(SwitchAction::ClearVideoBuffer);
            actions.push(SwitchAction::StopVideo(v));
        },
        None => {},
    }
}

/// The audio half of a switch.
fn plan_audio(
    s: TrackSlots,
    ta: usize,
    force: bool,
    live: bool,
    realtime: bool,
    actions: &mut Vec<SwitchAction>,
) -> (r: TrackSlots)
    ensures
        (r, final(actions)@.skip(old(actions)@.len() as int)) == audio_plan(
            s,
            ta,
            force,
            live,
            realtime,
        ),
        final(actions)@.len() >= old(actions)@.len(),
        final(actions)@.take(old(actions)@.len() as int) == old(actions)@,
{
    let ghost before = actions@;
    let mut r = s;
    if s.active_audio != ta {
        if force {
            push_drop_pending_audio(actions, s.next_audio);
            actions.push(SwitchAction::StopAudio(s.active_audio));
            if live {
                actions.push(SwitchAction::StartAudioAtPart { track: ta, reporter: s.active_audio });
            } else {
                actions.push(SwitchAction::StartAudioFrom(ta, StartTime::PlayerTime));
            }
            r.active_audio = ta;
            r.next_audio = None;
        } else if s.next_audio != Some(ta) {
            push_drop_pending_audio(actions, s.next_audio);
            if live {
                actions.push(
                    SwitchAction::StartAudioAtIndependentPart { track: ta, reporter: s.active_audio },
                );
            } else if realtime {
                actions.push(SwitchAction::StartAudioFrom(ta, StartTime::BufferEnd));
            } else {
                actions.push(
                    SwitchAction::StartAudioFrom(ta, StartTime::AudioRangeEnd(s.active_audio)),
                );
            }
            r.next_audio = Some(ta);
        }
    } else {
        match s.next_audio {
            Some(a) => {
                actions.push(SwitchAction::ClearAudioBuffer);
                actions.push(SwitchAction::StopAudio(a));
                r.next_audio = None;
            },
            None => {},
        }
    }
    proof {
        let (_, expected) = audio_plan(s, ta, force, live, realtime);
        assert(actions@.skip(before.len() as int) == expected);
        assert(actions@.take(before.len() as int) == before);
    }
    r
}

/// The video half of a switch.
fn plan_video(
    s: TrackSlots,
    tv: Option<usize>,
    force: bool,
    live: bool,
    realtime: bool,
    actions: &mut Vec<SwitchAction>,
) -> (r: TrackSlots)
    ensures
        (r, final(actions)@.skip(old(actions)@.len() as int)) == video_plan(
            s,
            tv,
            force,
            live,
            realtime,
        ),
        final(actions)@.len() >= old(actions)@.len(),
        final(actions)@.take(old(actions)@.len() as int) == old(actions)@,
{
    let ghost before = actions@;
    let mut r = s;
    match tv {
        Some(v) => {
            if s.active_video != Some(v) {
                if force {
                    push_drop_pending_video(actions, s.next_video);
                    match s.active_video {
                        Some(x) => actions.push(SwitchAction::StopVideo(x)),
                        None => actions.push(SwitchAction::DropVideoFactory),
                    }
                    if live {
                        actions.push(
                            SwitchAction::StartVideoAtPart { track: v, reporter: s.active_audio },
                        );
                    } else {
                        actions.push(SwitchAction::StartVideoFrom(v, StartTime::PlayerTime));
                    }
                    r.active_video = Some(v);
                    r.next_video = None;
                } else if s.next_video != Some(v) {
                    push_drop_pending_video(actions, s.next_video);
                    if live {
                        actions.push(
                            SwitchAction::StartVideoAtIndependentPart {
                                track: v,
                                reporter: s.active_audio,
                            },
                        );
                    } else if realtime {
                        actions.push(SwitchAction::StartVideoFrom(v, StartTime::BufferEnd));
                    } else {
                        actions.push(
                            SwitchAction::StartVideoFrom(v, StartTime::VideoRangeEnd(s.active_video)),
                        );
                    }
                    r.next_video = Some(v);
                }
            } else {
                push_drop_pending_video(actions, s.next_video);
                r.next_video = None;
            }
        },
        None => {
            match s.active_video {
                Some(x) => {
                    actions.push(SwitchAction::CreateVideoFactory(s.active_audio));
                    actions.push(SwitchAction::StopVideo(x));
                    r.active_video = None;
                },
                None => {},
            }
        },
    }
    proof {
        let (_, expected) = video_plan(s, tv, force, live, realtime);
        assert(actions@.skip(before.len() as int) == expected);
        assert(actions@.take(before.len() as int) == before);
    }
    r
}

/// Plans one switching step towards variant `next`, whose audio track is
/// `target_audio` and whose video track is `target_video` (none for an
/// audio-only variant).
pub fn plan_variant_switch(
    slots: TrackSlots,
    next: NextVariant,
    target_audio: usize,
    target_video: Option<usize>,
    realtime: bool,
    low_latency: bool,
    current_variant_id: u32,
) -> (r: SwitchPlan)
    ensures
        r@ == switch_plan(
            slots,
            next,
            target_audio,
            target_video,
            realtime,
            low_latency,
            current_variant_id,
        ),
{
    let force = next.is_force();
    let live = realtime && low_latency;
    let mut actions: Vec<SwitchAction> = Vec::new();
    let s1 = plan_audio(slots, target_audio, force, live, realtime, &mut actions);
    let ghost a = actions@;
    let s2 = plan_video(s1, target_video, force, live, realtime, &mut actions);
    proof {
        assert(actions@ =~= actions@.take(a.len() as int) + actions@.skip(a.len() as int));
        assert(a.skip(0) == a);
    }
    let switched = s2.active_audio == target_audio && s2.active_video == target_video;
    let next_vid = next.variant_id();
    let event = if switched && current_variant_id != next_vid {
        Some(
            VariantEvent {
                variant_id: next_vid,
                automatic: next.automatic(),
                previous_variant_id: #[verifier::truncate] (current_variant_id as i32),
            },
        )
    } else {
        None
    };
    SwitchPlan { slots: s2, actions, switched, event }
}

/// A forced switch is done in one step: afterwards the active tracks are
/// those of the requested variant.
pub proof fn law_forced_switch_completes(
    s: TrackSlots,
    next: NextVariant,
    ta: usize,
    tv: Option<usize>,
    realtime: bool,
    low_latency: bool,
    current_variant_id: u32,
)
    requires
        next is Force,
    ensures
        switch_plan(s, next, ta, tv, realtime, low_latency, current_variant_id).switched,
        switch_plan(s, next, ta, tv, realtime, low_latency, current_variant_id).slots.active_audio
            == ta,
        switch_plan(s, next, ta, tv, realtime, low_latency, current_variant_id).slots.active_video
            == tv,
{
}

/// Asking again for the variant that is already playing, with nothing
/// pending, changes nothing: no steps, the same slots, and the switch is done.
pub proof fn law_settled_switch_is_quiet(
    s: TrackSlots,
    next: NextVariant,
    realtime: bool,
    low_latency: bool,
    current_variant_id: u32,
)
    requires
        s.next_audio is None,
        s.next_video is None,
    ensures
        switch_plan(
            s,
            next,
            s.active_audio,
            s.active_video,
            realtime,
            low_latency,
            current_variant_id,
        ).actions.len() == 0,
        switch_plan(
            s,
            next,
            s.active_audio,
            s.active_video,
            realtime,
            low_latency,
            current_variant_id,
        ).slots == s,
        switch_plan(
            s,
            next,
            s.active_audio,
            s.active_video,
            realtime,
            low_latency,
            current_variant_id,
        ).switched,
{
    assert(seq![] + Seq::<SwitchAction>::empty() == Seq::<SwitchAction>::empty());
}

/// A switch that is not forced to a variant with video keeps the active
/// tracks playing; the new tracks only become pending.
pub proof fn law_gradual_switch_keeps_active(
    s: TrackSlots,
    next: NextVariant,
    ta: usize,
    tv: usize,
    realtime: bool,
    low_latency: bool,
    current_variant_id: u32,
)
    requires
        !(next is Force),
    ensures
        switch_plan(s, next, ta, Some(tv), realtime, low_latency, current_variant_id).slots.active_audio
            == s.active_audio,
        switch_plan(s, next, ta, Some(tv), realtime, low_latency, current_variant_id).slots.active_video
            == s.active_video,
        ta != s.active_audio ==> switch_plan(
            s,
            next,
            ta,
            Some(tv),
            realtime,
            low_latency,
            current_variant_id,
        ).slots.next_audio == Some(ta),
        Some(tv) != s.active_video ==> switch_plan(
            s,
            next,
            ta,
            Some(tv),
            realtime,
            low_latency,
            current_variant_id,
        ).slots.next_video == Some(tv),
{
}


/// Asking for the audio track that is already active while a switch to
/// another audio track is pending abandons that switch: its held-back audio
/// is dropped and the pending audio track is stopped, and no video track is
/// touched by the audio half of the step.
pub proof fn law_returning_to_active_audio_aborts_pending(
    s: TrackSlots,
    force: bool,
    live: bool,
    realtime: bool,
    pending: usize,
)
    requires
        s.next_audio == Some(pending),
    ensures
        audio_plan(s, s.active_audio, force, live, realtime) == (
            TrackSlots { next_audio: None, ..s },
            seq![SwitchAction::ClearAudioBuffer, SwitchAction::StopAudio(pending)],
        ),
        forall|i: int|
            0 <= i < audio_plan(s, s.active_audio, force, live, realtime).1.len() ==> !(#[trigger] audio_plan(
                s,
                s.active_audio,
                force,
                live,
                realtime,
            ).1[i] is StopVideo),
{
}

} // verus!
