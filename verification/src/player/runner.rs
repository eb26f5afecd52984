//! The decisions the player's driving loop takes about each track's output.
//! The loop itself awaits the media buffers and the clock; it hands in what
//! it observed and carries out the action chosen here.

use vstd::prelude::*;

verus! {

/// Whether the runner has stopped and whether playback has finished.
#[derive(Debug, Clone, Copy, PartialEq, Eq, Structural)]
pub struct Flags {
    pub is_stopped: bool,
    pub is_finished: bool,
}

impl Default for Flags {
    /// Neither stopped nor finished.
    fn default() -> (r: Flags)
        ensures
            !r.is_stopped,
            !r.is_finished,
    {
        Flags { is_stopped: false, is_finished: false }
    }
}

impl Flags {
    /// Clears both flags.
    pub fn reset(&mut self)
        ensures
            !final(self).is_stopped,
            !final(self).is_finished,
    {
        *self = Flags::default();
    }
}

/// What the media source reports.
#[derive(Debug, Clone, Copy, PartialEq, Eq, Structural)]
pub enum MediaSourceEvent {
    SourceOpen,
    SourceClose,
}

/// What to do with media that a track delivered.
#[derive(Debug, Clone, Copy, PartialEq, Eq, Structural)]
pub enum MediaAction {
    /// Keep it aside until the track becomes active.
    Hold,
    /// The active track has reached the start of its successor: switch over.
    Switch,
    /// Append it to the media buffer.
    Append,
}

/// What to do when a track reports a gap in the media.
#[derive(Debug, Clone, Copy, PartialEq, Eq, Structural)]
pub enum GapAction {
    /// Jump past the gap.
    SeekPast,
    /// Pause playback.
    Pause,
    /// Nothing: playback is paused already.
    Ignore,
}

/// What to do once the stream has finished.
#[derive(Debug, Clone, Copy, PartialEq, Eq, Structural)]
pub enum FinishAction {
    /// Keep playing from the recording, without realtime mode.
    LeaveRealtime,
    /// Stop the player.
    Stop,
}

/// Decides what to do with media from a track: hold it when the track is not
/// the active one; switch when a successor is waiting and the media reaches
/// its start (`reached_next_start` is whether it does, when there is one);
/// append it otherwise.
pub fn media_action(is_active: bool, reached_next_start: Option<bool>) -> (r: MediaAction)
    ensures
        !is_active ==> r == MediaAction::Hold,
        is_active && reached_next_start == Some(true) ==> r == MediaAction::Switch,
        is_active && reached_next_start != Some(true) ==> r == MediaAction::Append,
{
    if !is_active {
        MediaAction::Hold
    } else {
        match reached_next_start {
            Some(true) => MediaAction::Switch,
            _ => MediaAction::Append,
        }
    }
}

/// Decides what to do about a gap: jump past it in realtime mode, else pause
/// playback unless it is paused already.
pub fn gap_action(realtime_mode: bool, paused: bool) -> (r: GapAction)
    ensures
        realtime_mode ==> r == GapAction::SeekPast,
        !realtime_mode && !paused ==> r == GapAction::Pause,
        !realtime_mode && paused ==> r == GapAction::Ignore,
{
    if realtime_mode {
        GapAction::SeekPast
    } else if !paused {
        GapAction::Pause
    } else {
        GapAction::Ignore
    }
}

/// Decides what to do once the stream has finished: leave realtime mode when
/// the recording can be played, stop otherwise.
pub fn finish_action(dvr_supported: bool) -> (r: FinishAction)
    ensures
        r == (if dvr_supported {
            FinishAction::LeaveRealtime
        } else {
            FinishAction::Stop
        }),
{
    if dvr_supported {
        FinishAction::LeaveRealtime
    } else {
        FinishAction::Stop
    }
}


/// What the runner does about a track's finished report: the flags after it,
/// and the action to take, if any.
pub open spec fn finish_step(flags: Flags, track_finished: bool, dvr_supported: bool) -> (
    Flags,
    Option<FinishAction>,
) {
    if track_finished && !flags.is_finished {
        (
            Flags { is_finished: true, ..flags },
            Some(
                if dvr_supported {
                    FinishAction::LeaveRealtime
                } else {
                    FinishAction::Stop
                },
            ),
        )
    } else {
        (flags, None)
    }
}

/// Once a track reports the stream finished, the runner acts on it once:
/// the first report marks playback finished and says what to do (leave
/// realtime mode when the recording can be played, stop otherwise); later
/// reports, and a track that has not finished, do nothing.
pub fn finish_once(flags: &mut Flags, track_finished: bool, dvr_supported: bool) -> (r: Option<
    FinishAction,
>)
    ensures
        (*final(flags), r) == finish_step(*old(flags), track_finished, dvr_supported),
{
    if track_finished && !flags.is_finished {
        flags.is_finished = true;
        Some(finish_action(dvr_supported))
    } else {
        None
    }
}

/// The finished event fires once: the first finished report on a player
/// that has not finished yet gives an action, and every later report gives
/// none, until the flags are reset.
pub proof fn law_finish_acts_once(flags: Flags, d1: bool, later_finished: bool, d2: bool)
    requires
        !flags.is_finished,
    ensures
        finish_step(flags, true, d1).1 is Some,
        finish_step(finish_step(flags, true, d1).0, later_finished, d2).1 is None,
        finish_step(finish_step(flags, true, d1).0, later_finished, d2).0.is_finished,
{
}

} // verus!
