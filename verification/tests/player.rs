use scuffle_video::player::runner::finish_once;
use scuffle_video::player::variant::{audio_only_switch, audio_only_variant, visibility_return};
use scuffle_video::player::track::{dvr_directory, next_dvr_prefix, receive_playlist};
use scuffle_video::player::listeners::EventListeners;
use scuffle_video::player::api::{rendition_url, session_url};
use scuffle_video::player::inner::{
    next_variant_id_request, next_variant_id_value, reported_dvr_supported,
    reported_realtime_mode, reported_variant_id, state_after_start, variant_id_request,
    PlayerState, VariantRequest,
};
use scuffle_video::player::listeners::ListenerList;
use scuffle_video::player::regions::SegmentRegions;
use scuffle_video::player::track::{StartFrom, TrackSchedule};
use scuffle_video::player::api::{RenditionSettings, ScufflePart};
use scuffle_video::player::events::{playlist_error, ErrorCode, EventError, EventType, UserEvent};
use scuffle_video::player::inner::{NextVariant, NextVariantAutoCause, RealtimeSettings};
use scuffle_video::player::requests::{QueuedRequest, RequestQueue};
use scuffle_video::player::runner::{
    finish_action, gap_action, media_action, FinishAction, Flags, GapAction, MediaAction,
};
use scuffle_video::player::settings::{ErrorWrapper, LoggingLevel};
use scuffle_video::player::switch::{plan_variant_switch, StartTime, SwitchAction, TrackSlots};
use scuffle_video::player::track::{
    count_failure, latency_mode_changed, plan_manifest, refresh_after_playlist, ManifestRefresh,
    ManifestStep,
};
use scuffle_video::player::variant::{build_variants, Variant};
use scuffle_video::types::{RoomPlaylistTrack, RoomPlaylistTrackAudio, RoomPlaylistTrackVideo};

fn audio(name: &str, bitrate: u32) -> RoomPlaylistTrack<RoomPlaylistTrackAudio> {
    RoomPlaylistTrack {
        name: name.to_string(),
        bitrate,
        codec: "opus".to_string(),
        other: RoomPlaylistTrackAudio { channels: 2, sample_rate: 48000 },
    }
}

fn video(name: &str, bitrate: u32) -> RoomPlaylistTrack<RoomPlaylistTrackVideo> {
    RoomPlaylistTrack {
        name: name.to_string(),
        bitrate,
        codec: "avc1".to_string(),
        other: RoomPlaylistTrackVideo { width: 1280, height: 720, frame_rate: 30 },
    }
}

#[test]
fn next_variant_accessors() {
    let f = NextVariant::Force(3);
    assert_eq!(f.variant_id(), 3);
    assert!(f.is_force());
    assert!(f.automatic().is_none());
    let a = NextVariant::Auto { id: 5, cause: NextVariantAutoCause::Bandwidth };
    assert_eq!(a.variant_id(), 5);
    assert!(!a.is_force());
    assert!(a.automatic() == Some(NextVariantAutoCause::Bandwidth));
    assert_eq!(NextVariant::Switch(7).variant_id(), 7);
}

#[test]
fn realtime_switching() {
    let mut s = RealtimeSettings {
        enable_dvr: true,
        dvr_supported: true,
        realtime_supported: true,
        realtime_mode: true,
    };
    assert_eq!(s.set_realtime(false), Ok(true));
    assert!(!s.realtime_mode);
    assert_eq!(s.set_realtime(false), Ok(false));
    let mut n = RealtimeSettings {
        enable_dvr: false,
        dvr_supported: true,
        realtime_supported: false,
        realtime_mode: true,
    };
    assert_eq!(
        n.set_realtime(false),
        Err("dvr is not supported, by the player so realtime cannot be disabled")
    );
    assert_eq!(
        n.set_realtime(true),
        Err("realtime is not supported, by the player, so it cannot be enabled")
    );
    assert!(n.realtime_mode);
    assert!(s.use_dvr(false));
    assert!(!n.use_dvr(true));
}

#[test]
fn variants_from_tracks() {
    let a = vec![audio("a", 100)];
    let v = vec![video("low", 500), video("high", 2000)];
    let variants = build_variants(&a, &v);
    assert_eq!(variants.len(), 3);
    let totals: Vec<u32> = variants
        .iter()
        .map(|x| x.audio_track.bitrate + x.video_track.as_ref().map(|t| t.bitrate).unwrap_or(0))
        .collect();
    assert_eq!(totals, vec![2100, 600, 100]);
    assert_eq!(variants[0].video_track.as_ref().unwrap().name, "high");
    assert!(variants[2].video_track.is_none());
    let single = Variant::new((0, &a[0]), Some((1, &v[1])));
    assert_eq!(single.video_track.unwrap().id, 1);
}

#[test]
fn forced_switch_replaces_tracks() {
    let slots = TrackSlots { active_audio: 0, next_audio: None, active_video: Some(0), next_video: None };
    let plan = plan_variant_switch(slots, NextVariant::Force(2), 1, Some(1), false, false, 0);
    assert!(plan.switched);
    assert_eq!(plan.slots.active_audio, 1);
    assert_eq!(plan.slots.active_video, Some(1));
    assert_eq!(
        plan.actions,
        vec![
            SwitchAction::StopAudio(0),
            SwitchAction::StartAudioFrom(1, StartTime::PlayerTime),
            SwitchAction::StopVideo(0),
            SwitchAction::StartVideoFrom(1, StartTime::PlayerTime),
        ]
    );
    let event = plan.event.unwrap();
    assert_eq!(event.variant_id, 2);
    assert_eq!(event.previous_variant_id, 0);
}

#[test]
fn gradual_switch_starts_pending_tracks() {
    let slots = TrackSlots { active_audio: 0, next_audio: None, active_video: Some(0), next_video: None };
    let plan = plan_variant_switch(slots, NextVariant::Switch(2), 0, Some(1), true, true, 0);
    assert!(!plan.switched);
    assert_eq!(plan.slots.next_video, Some(1));
    assert_eq!(plan.slots.active_video, Some(0));
    assert_eq!(
        plan.actions,
        vec![SwitchAction::StartVideoAtIndependentPart { track: 1, reporter: 0 }]
    );
    assert!(plan.event.is_none());
}

#[test]
fn settled_switch_changes_nothing() {
    let slots = TrackSlots { active_audio: 0, next_audio: None, active_video: Some(1), next_video: None };
    let plan = plan_variant_switch(slots, NextVariant::Switch(2), 0, Some(1), false, false, 2);
    assert!(plan.switched);
    assert!(plan.actions.is_empty());
    assert!(plan.event.is_none());
}

#[test]
fn manifest_requests() {
    let r = plan_manifest(false, 0, ManifestRefresh::Time, false, Some(9), true, true);
    assert_eq!(
        r,
        ManifestStep::Request(RenditionSettings {
            scuffle_part: Some(ScufflePart::IPart(9)),
            scuffle_dvr: true,
            hls_skip: false,
        })
    );
    assert_eq!(plan_manifest(false, 11, ManifestRefresh::Time, true, None, true, false), ManifestStep::TooManyErrors);
    assert_eq!(plan_manifest(false, 10, ManifestRefresh::Never, false, None, false, false),
        ManifestStep::Request(RenditionSettings { scuffle_part: None, scuffle_dvr: false, hls_skip: true }));
    assert_eq!(plan_manifest(true, 0, ManifestRefresh::Never, true, None, true, false), ManifestStep::Wait);
    assert_eq!(plan_manifest(true, 0, ManifestRefresh::Time, false, None, true, false), ManifestStep::Wait);
    assert_eq!(
        plan_manifest(true, 0, ManifestRefresh::Part(4), false, None, true, false),
        ManifestStep::Request(RenditionSettings {
            scuffle_part: Some(ScufflePart::Part(4)),
            scuffle_dvr: false,
            hls_skip: false,
        })
    );
    assert_eq!(refresh_after_playlist(true), ManifestRefresh::Never);
    assert_eq!(refresh_after_playlist(false), ManifestRefresh::Time);
}

#[test]
fn failures_back_off_and_turn_fatal() {
    let f = count_failure(0);
    assert_eq!(f.count, 1);
    assert_eq!(f.retry_delay_ms, 0);
    assert!(!f.fatal);
    let f = count_failure(3);
    assert_eq!(f.retry_delay_ms, 750);
    let f = count_failure(10);
    assert_eq!(f.count, 11);
    assert_eq!(f.retry_delay_ms, 2500);
    assert!(f.fatal);
}

#[test]
fn latency_toggle() {
    assert!(latency_mode_changed(true, None, Some(3)));
    assert!(latency_mode_changed(false, Some(3), None));
    assert!(!latency_mode_changed(true, Some(3), None));
}

#[test]
fn query_pairs_in_order() {
    let s = RenditionSettings { scuffle_part: Some(ScufflePart::IPart(5)), scuffle_dvr: true, hls_skip: true };
    let pairs = s.query_pairs();
    let expected: Vec<(String, String)> = vec![
        ("_SCUFFLE_json".into(), "YES".into()),
        ("_SCUFFLE_ipart".into(), "5".into()),
        ("_SCUFFLE_dvr".into(), "YES".into()),
        ("_HLS_skip".into(), "YES".into()),
    ];
    assert_eq!(pairs, expected);
    let p = RenditionSettings { scuffle_part: Some(ScufflePart::Part(120)), scuffle_dvr: false, hls_skip: false };
    let expected: Vec<(String, String)> =
        vec![("_SCUFFLE_json".into(), "YES".into()), ("_SCUFFLE_part".into(), "120".into())];
    assert_eq!(p.query_pairs(), expected);
}

#[test]
fn request_queue_keeps_one_per_address() {
    let mut q: RequestQueue<u32> = RequestQueue::new();
    assert!(q.push(QueuedRequest { url: "a".to_string(), is_part: true, item: 1 }));
    assert!(q.push(QueuedRequest { url: "b".to_string(), is_part: true, item: 2 }));
    assert!(!q.push(QueuedRequest { url: "a".to_string(), is_part: false, item: 3 }));
    assert_eq!(q.len(), 2);
    assert_eq!(q.start_count(), 2);
    let first = q.pop_front().unwrap();
    assert_eq!(first.item, 1);
    q.requeue(first);
    assert_eq!(q.front().unwrap().url, "a");
    q.clear();
    assert_eq!(q.start_count(), 0);
    assert!(q.pop_front().is_none());
}

#[test]
fn segment_requests_start_one_at_a_time() {
    let mut q: RequestQueue<()> = RequestQueue::new();
    q.push(QueuedRequest { url: "s".to_string(), is_part: false, item: () });
    q.push(QueuedRequest { url: "p".to_string(), is_part: true, item: () });
    assert_eq!(q.start_count(), 1);
}

#[test]
fn event_names() {
    assert!(EventType::from_name("error") == Some(EventType::Error));
    assert!(EventType::from_name("load") == Some(EventType::LoadStart));
    assert!(EventType::from_name("loadstart") == Some(EventType::LoadStart));
    assert!(EventType::from_name("manifestloaded") == Some(EventType::ManifestLoaded));
    assert!(EventType::from_name("visibility") == Some(EventType::Visibility));
    assert!(EventType::from_name("Error").is_none());
    assert!(EventType::from_name("").is_none());
    assert!(UserEvent::Finished.ty() == EventType::Finished);
    let e = EventError::new(ErrorCode::Network, "x".to_string(), false);
    assert!(UserEvent::Error(e).ty() == EventType::Error);
}

#[test]
fn playlist_errors() {
    let e = playlist_error(true);
    assert!(e.fatal);
    assert_eq!(e.message, "failed to fetch playlist too many times");
    let mut e = playlist_error(false);
    assert!(!e.fatal);
    assert_eq!(e.message, "failed to fetch playlist, request took too long");
    e.set_fatal(true);
    assert!(e.fatal);
    assert!(e.code == ErrorCode::Other);
}

#[test]
fn runner_decisions() {
    assert_eq!(media_action(false, Some(true)), MediaAction::Hold);
    assert_eq!(media_action(true, Some(true)), MediaAction::Switch);
    assert_eq!(media_action(true, Some(false)), MediaAction::Append);
    assert_eq!(media_action(true, None), MediaAction::Append);
    assert_eq!(gap_action(true, true), GapAction::SeekPast);
    assert_eq!(gap_action(false, false), GapAction::Pause);
    assert_eq!(gap_action(false, true), GapAction::Ignore);
    assert_eq!(finish_action(true), FinishAction::LeaveRealtime);
    assert_eq!(finish_action(false), FinishAction::Stop);
    let mut f = Flags { is_stopped: true, is_finished: true };
    f.reset();
    assert!(!f.is_stopped && !f.is_finished);
}

#[test]
fn settings_defaults() {
    assert!(LoggingLevel::default() == LoggingLevel::Info);
    let w = ErrorWrapper::new(41u32);
    assert_eq!(w.into_inner(), 41);
}

#[test]
fn segment_regions_keep_one_entry_per_number() {
    let mut r: SegmentRegions<&str> = SegmentRegions::new();
    assert!(r.is_empty());
    r.add(5, "five");
    r.add(2, "two");
    r.add(9, "nine");
    r.add(5, "five again");
    let keys: Vec<u32> = r.entries().iter().map(|e| e.0).collect();
    assert_eq!(keys, vec![2, 5, 9]);
    assert_eq!(r.entries()[1].1, "five again");
    r.update(0, "TWO");
    assert_eq!(r.entries()[0], (2, "TWO"));
    r.clear();
    assert!(r.is_empty());
}

#[test]
fn track_schedule_transitions() {
    let mut s = TrackSchedule::new();
    s.start_at_ipart(4);
    assert_eq!(s.refresh, ManifestRefresh::IPart(4));
    assert_eq!(s.start_from, Some(StartFrom::IPart(4)));
    assert!(s.start());
    assert_eq!(s.refresh, ManifestRefresh::Time);
    assert_eq!(s.start_from, None);
    s.start_at_part(8);
    assert_eq!(s.refresh, ManifestRefresh::Part(8));
    assert_eq!(s.playlist_received(true), None);
    assert!(s.finished);
    assert_eq!(s.refresh, ManifestRefresh::Never);
    assert!(!s.stop());
    s.start_at_part(9);
    assert_eq!(s.refresh, ManifestRefresh::Never);
    s.finished_by_server();
    assert_eq!(s.refresh, ManifestRefresh::Time);
}

#[test]
fn event_type_parses_with_from_str() {
    let t: EventType = "dvr".parse().unwrap();
    assert!(t == EventType::Dvr);
    assert!("nope".parse::<EventType>().is_err());
}

#[test]
fn once_listeners_fire_once() {
    let mut l = ListenerList::new();
    l.add(1, false);
    l.add(2, true);
    assert_eq!(l.emit(), vec![1, 2]);
    assert_eq!(l.emit(), vec![1]);
    assert_eq!(l.listeners().len(), 1);
    l.add(3, false);
    l.remove(1);
    assert_eq!(l.emit(), vec![3]);
}

#[test]
fn player_reports() {
    assert_eq!(next_variant_id_value(Some(NextVariant::Switch(4))), Some(4));
    assert_eq!(next_variant_id_value(None), None);
    assert!(variant_id_request(-1, 4) == VariantRequest::EnableAbr);
    assert!(variant_id_request(3, 4) == VariantRequest::Select(NextVariant::Force(3)));
    assert!(variant_id_request(4, 4) == VariantRequest::Ignore);
    assert!(variant_id_request(-5, 4) == VariantRequest::Ignore);
    assert!(next_variant_id_request(2, 3) == VariantRequest::Select(NextVariant::Switch(2)));
    assert!(next_variant_id_request(3, 3) == VariantRequest::Ignore);
    assert!(next_variant_id_request(0, 0) == VariantRequest::Ignore);
    assert!(next_variant_id_request(-1, 0) == VariantRequest::EnableAbr);
    assert!(state_after_start(PlayerState::Stopped) == PlayerState::Running);
    assert!(state_after_start(PlayerState::Initialized) == PlayerState::Initialized);
    assert_eq!(reported_variant_id(PlayerState::Initialized, 7), -1);
    assert_eq!(reported_variant_id(PlayerState::Running, 7), 7);
    assert!(!reported_dvr_supported(PlayerState::Initialized, true));
    assert!(reported_dvr_supported(PlayerState::Stopped, true));
    assert_eq!(reported_realtime_mode(PlayerState::Running, true), Some(true));
    assert_eq!(reported_realtime_mode(PlayerState::Stopped, true), None);
}

#[test]
fn start_from_a_time() {
    let mut s = TrackSchedule::new();
    s.start_from_time();
    assert_eq!(s.start_from, Some(StartFrom::Time));
    assert_eq!(s.refresh, ManifestRefresh::Time);
    assert_eq!(s.playlist_received(false), Some(StartFrom::Time));
    assert_eq!(s.start_from, None);
}

#[test]
fn request_addresses() {
    let s = RenditionSettings { scuffle_part: Some(ScufflePart::IPart(5)), scuffle_dvr: true, hls_skip: false };
    assert_eq!(
        rendition_url("https://a.example/o/s/", "720p", &s).unwrap(),
        "https://a.example/o/s/720p.m3u8?_SCUFFLE_json=YES&_SCUFFLE_ipart=5&_SCUFFLE_dvr=YES"
    );
    assert_eq!(
        session_url("https://a.example/o/", "r1", true, Some("tok")).unwrap(),
        "https://a.example/o/r/r1.m3u8?_SCUFFLE_json=YES&token=tok"
    );
    assert_eq!(
        session_url("https://a.example/o/", "room", false, None).unwrap(),
        "https://a.example/o/room.m3u8?_SCUFFLE_json=YES"
    );
    assert!(session_url("not an address", "room", false, None).is_none());
}

#[test]
fn listeners_by_event_kind() {
    let mut m = EventListeners::new();
    m.add(EventType::LoadStart, 1, true);
    m.add(EventType::LoadStart, 2, false);
    m.add(EventType::Dvr, 3, false);
    assert_eq!(m.emit(EventType::LoadStart), vec![1, 2]);
    assert_eq!(m.emit(EventType::LoadStart), vec![2]);
    assert_eq!(m.emit(EventType::Dvr), vec![3]);
    m.remove(EventType::Dvr, 3);
    assert!(m.emit(EventType::Dvr).is_empty());
    assert_eq!(m.listeners_of(EventType::LoadStart).len(), 1);
}

#[test]
fn returning_to_active_audio_stops_pending_audio() {
    let slots = TrackSlots { active_audio: 0, next_audio: Some(2), active_video: Some(1), next_video: None };
    let plan = plan_variant_switch(slots, NextVariant::Switch(1), 0, Some(1), false, false, 1);
    assert_eq!(plan.actions, vec![SwitchAction::ClearAudioBuffer, SwitchAction::StopAudio(2)]);
    assert_eq!(plan.slots.next_audio, None);
    assert!(plan.switched);
}

#[test]
fn finished_event_acts_once() {
    let mut f = Flags { is_stopped: false, is_finished: false };
    assert_eq!(finish_once(&mut f, false, true), None);
    assert!(!f.is_finished);
    assert_eq!(finish_once(&mut f, true, true), Some(FinishAction::LeaveRealtime));
    assert!(f.is_finished);
    assert_eq!(finish_once(&mut f, true, false), None);
    let mut g = Flags { is_stopped: false, is_finished: false };
    assert_eq!(finish_once(&mut g, true, false), Some(FinishAction::Stop));
}

#[test]
fn audio_only_fallback() {
    let a = vec![audio("a", 100)];
    let v = vec![video("low", 500), video("high", 2000)];
    let variants = build_variants(&a, &v);
    assert_eq!(audio_only_variant(&variants), Some(2));
    let r = audio_only_switch(true, false, true, true, &variants, 0).unwrap();
    assert!(r.0 == NextVariant::Auto { id: 2, cause: NextVariantAutoCause::Visibility });
    assert_eq!(r.1, 0);
    assert!(audio_only_switch(true, true, true, true, &variants, 0).is_none());
    assert!(audio_only_switch(false, false, true, true, &variants, 0).is_none());
    assert!(visibility_return(Some(1), true, Some(0)) == Some(NextVariant::Auto { id: 0, cause: NextVariantAutoCause::Visibility }));
    assert!(visibility_return(Some(1), true, None) == Some(NextVariant::Auto { id: 1, cause: NextVariantAutoCause::Visibility }));
    assert!(visibility_return(Some(1), false, Some(0)) == Some(NextVariant::Auto { id: 1, cause: NextVariantAutoCause::Visibility }));
    assert!(visibility_return(None, true, Some(0)).is_none());
}

#[test]
fn recording_prefix_as_directory() {
    assert_eq!(dvr_directory("https://d.example/r").unwrap(), "https://d.example/r/");
    assert_eq!(dvr_directory("https://d.example/r/").unwrap(), "https://d.example/r/");
    assert!(dvr_directory("not an address").is_none());
    assert_eq!(next_dvr_prefix(Some("https://old/".to_string()), &None), Some("https://old/".to_string()));
    assert_eq!(
        next_dvr_prefix(None, &Some("https://d.example/x".to_string())),
        Some("https://d.example/x/".to_string())
    );
    let mut s = TrackSchedule::new();
    s.start_at_ipart(3);
    let mut errors = 7u32;
    assert_eq!(receive_playlist(&mut s, &mut errors, false), Some(StartFrom::IPart(3)));
    assert_eq!(errors, 0);
    assert_eq!(s.refresh, ManifestRefresh::Time);
}
