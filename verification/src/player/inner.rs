//! Player state, variant requests and the realtime/DVR switches.

use vstd::prelude::*;

verus! {

/// The lifecycle state of a player.
#[derive(Debug, Clone, Copy, PartialEq, Eq, Structural)]
pub enum PlayerState {
    Running,
    Stopped,
    Shutdown,
    Initialized,
}

/// Why a variant was chosen automatically.
#[derive(Debug, Clone, Copy, PartialEq, Eq, Structural)]
pub enum NextVariantAutoCause {
    Bandwidth,
    Visibility,
}

/// A pending variant change.
#[derive(Debug, Clone, Copy, PartialEq, Eq, Structural)]
pub enum NextVariant {
    /// Switch once the new tracks have caught up.
    Switch(u32),
    /// Switch chosen by the player itself.
    Auto { id: u32, cause: NextVariantAutoCause },
    /// Switch at once, dropping what the current tracks hold.
    Force(u32),
}

impl NextVariant {
    /// The variant this change leads to.
    pub open spec fn spec_variant_id(self) -> u32 {
        match self {
            NextVariant::Switch(id) => id,
            NextVariant::Auto { id, .. } => id,
            NextVariant::Force(id) => id,
        }
    }

    /// The variant this change leads to.
    pub fn variant_id(&self) -> (r: u32)
        ensures
            r == self.spec_variant_id(),
    {
        match self {
            NextVariant::Switch(id) => *id,
            NextVariant::Force(id) => *id,
            NextVariant::Auto { id, .. } => *id,
        }
    }

    /// Whether the change is forced.
    pub fn is_force(&self) -> (r: bool)
        ensures
            r == (*self is Force),
    {
        match self {
            NextVariant::Force(_) => true,
            _ => false,
        }
    }

    /// Why the change was chosen automatically, if it was.
    pub fn automatic(&self) -> (r: Option<NextVariantAutoCause>)
        ensures
            r == (match *self {
                NextVariant::Auto { cause, .. } => Some(cause),
                _ => None,
            }),
    {
        match self {
            NextVariant::Auto { cause, .. } => Some(*cause),
            _ => None,
        }
    }
}

/// The value a variant id getter reports for a pending change.
pub fn next_variant_id_value(next: Option<NextVariant>) -> (r: Option<i32>)
    ensures
        r == (match next {
            Some(n) => Some(n.spec_variant_id() as i32),
            None => None,
        }),
{
    match next {
        Some(n) => Some(#[verifier::truncate] (n.variant_id() as i32)),
        None => None,
    }
}

/// What setting a variant id from the outside asks for.
#[derive(Debug, Clone, Copy, PartialEq, Eq, Structural)]
pub enum VariantRequest {
    /// `-1`: turn adaptive bitrate selection back on.
    EnableAbr,
    /// A variant id: turn adaptive selection off and request this change.
    Select(NextVariant),
    /// Any other value (below `-1`, or past the last variant) is ignored.
    Ignore,
}

/// The request that setting the current variant id makes, for a player with
/// `variant_count` variants: `-1` enables adaptive selection, the id of an
/// existing variant forces a switch to it, and any other value is silently
/// ignored.
pub fn variant_id_request(variant_id: i32, variant_count: usize) -> (r: VariantRequest)
    ensures
        variant_id == -1 ==> r == VariantRequest::EnableAbr,
        0 <= variant_id < variant_count ==> r == VariantRequest::Select(
            NextVariant::Force(variant_id as u32),
        ),
        (variant_id < -1 || variant_id >= variant_count) ==> r == VariantRequest::Ignore,
{
    if variant_id == -1 {
        VariantRequest::EnableAbr
    } else if variant_id >= 0 && (variant_id as usize) < variant_count {
        VariantRequest::Select(NextVariant::Force(variant_id as u32))
    } else {
        VariantRequest::Ignore
    }
}

/// The request that setting the next variant id makes, for a player with
/// `variant_count` variants: `-1` enables adaptive selection, the id of an
/// existing variant asks for a switch to it, and any other value is
/// silently ignored.
pub fn next_variant_id_request(variant_id: i32, variant_count: usize) -> (r: VariantRequest)
    ensures
        variant_id == -1 ==> r == VariantRequest::EnableAbr,
        0 <= variant_id < variant_count ==> r == VariantRequest::Select(
            NextVariant::Switch(variant_id as u32),
        ),
        (variant_id < -1 || variant_id >= variant_count) ==> r == VariantRequest::Ignore,
{
    if variant_id == -1 {
        VariantRequest::EnableAbr
    } else if variant_id >= 0 && (variant_id as usize) < variant_count {
        VariantRequest::Select(NextVariant::Switch(variant_id as u32))
    } else {
        VariantRequest::Ignore
    }
}

/// The state a player is in after `start`: a stopped player runs again,
/// an initialized or running one is unchanged.
pub fn state_after_start(state: PlayerState) -> (r: PlayerState)
    requires
        state != PlayerState::Shutdown,
    ensures
        state == PlayerState::Stopped ==> r == PlayerState::Running,
        state != PlayerState::Stopped ==> r == state,
{
    match state {
        PlayerState::Stopped => PlayerState::Running,
        _ => state,
    }
}

/// The variant id the player reports: `-1` before anything is loaded.
pub fn reported_variant_id(state: PlayerState, current_variant_id: u32) -> (r: i32)
    ensures
        state == PlayerState::Initialized ==> r == -1,
        state != PlayerState::Initialized ==> r == current_variant_id as i32,
{
    if state == PlayerState::Initialized {
        -1
    } else {
        #[verifier::truncate] (current_variant_id as i32)
    }
}

/// Whether the player reports DVR support: never before anything is loaded.
pub fn reported_dvr_supported(state: PlayerState, dvr_supported: bool) -> (r: bool)
    ensures
        r == (state != PlayerState::Initialized && dvr_supported),
{
    if state == PlayerState::Initialized {
        false
    } else {
        dvr_supported
    }
}

/// The realtime mode the player reports: only while running.
pub fn reported_realtime_mode(state: PlayerState, realtime_mode: bool) -> (r: Option<bool>)
    ensures
        state == PlayerState::Running ==> r == Some(realtime_mode),
        state != PlayerState::Running ==> r is None,
{
    if state != PlayerState::Running {
        None
    } else {
        Some(realtime_mode)
    }
}

/// The switches that decide between realtime (live edge) and DVR playback.
#[derive(Debug, Clone, Copy, PartialEq, Eq, Structural)]
pub struct RealtimeSettings {
    /// The user allows DVR.
    pub enable_dvr: bool,
    /// The loaded room or recording supports DVR.
    pub dvr_supported: bool,
    /// The loaded room supports realtime playback.
    pub realtime_supported: bool,
    /// The player is in realtime mode.
    pub realtime_mode: bool,
}

/// The message when realtime mode is asked for but not supported.
pub open spec fn realtime_unsupported_msg() -> Seq<char> {
    "realtime is not supported, by the player, so it cannot be enabled"@
}

/// The message when realtime mode is left but DVR is not available.
pub open spec fn dvr_unsupported_msg() -> Seq<char> {
    "dvr is not supported, by the player so realtime cannot be disabled"@
}

impl RealtimeSettings {
    /// Whether DVR is used: allowed by the user and supported (or the support
    /// check is bypassed).
    pub fn use_dvr(&self, bypass_supported: bool) -> (r: bool)
        ensures
            r == (self.enable_dvr && (self.dvr_supported || bypass_supported)),
    {
        self.enable_dvr && (self.dvr_supported || bypass_supported)
    }

    /// Turns realtime mode on or off. Fails when it is not supported, or when
    /// leaving it would need DVR that is not available; otherwise tells
    /// whether the mode changed.
    pub fn set_realtime(&mut self, realtime: bool) -> (r: Result<bool, &'static str>)
        ensures
            match r {
                Ok(b) => realtime_outcome(*old(self), realtime) == Ok::<bool, Seq<char>>(b),
                Err(e) => realtime_outcome(*old(self), realtime) == Err::<bool, Seq<char>>(e@),
            },
            *final(self) == realtime_after(*old(self), realtime),
    {
        if realtime && !self.realtime_supported {
            return Err("realtime is not supported, by the player, so it cannot be enabled");
        }
        if !realtime && !self.use_dvr(false) {
            return Err("dvr is not supported, by the player so realtime cannot be disabled");
        }
        if self.realtime_mode == realtime {
            return Ok(false);
        }
        self.realtime_mode = realtime;
        Ok(true)
    }
}

/// Whether DVR is used, as `use_dvr` computes it.
pub open spec fn uses_dvr(s: RealtimeSettings, bypass_supported: bool) -> bool {
    s.enable_dvr && (s.dvr_supported || bypass_supported)
}

/// What asking for realtime mode answers: an error when it is not
/// supported, or when leaving it needs DVR that is not available; otherwise
/// whether the mode changes.
pub open spec fn realtime_outcome(s: RealtimeSettings, realtime: bool) -> Result<bool, Seq<char>> {
    if realtime && !s.realtime_supported {
        Err(realtime_unsupported_msg())
    } else if !realtime && !uses_dvr(s, false) {
        Err(dvr_unsupported_msg())
    } else {
        Ok(s.realtime_mode != realtime)
    }
}

/// The settings after asking for realtime mode: the mode is set when the
/// request is accepted, nothing changes when it is refused.
pub open spec fn realtime_after(s: RealtimeSettings, realtime: bool) -> RealtimeSettings {
    match realtime_outcome(s, realtime) {
        Ok(_) => RealtimeSettings { realtime_mode: realtime, ..s },
        Err(_) => s,
    }
}

/// Asking for the same realtime mode twice: the second request is accepted
/// too, changes nothing and reports no change.
pub proof fn law_set_realtime_idempotent(s: RealtimeSettings, realtime: bool)
    requires
        realtime_outcome(s, realtime) is Ok,
    ensures
        realtime_after(s, realtime).realtime_mode == realtime,
        realtime_outcome(realtime_after(s, realtime), realtime) == Ok::<bool, Seq<char>>(false),
        realtime_after(realtime_after(s, realtime), realtime) == realtime_after(s, realtime),
{
}

} // verus!
