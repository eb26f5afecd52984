use scuffle_video::player::track::{stream_finished_by_server, ManifestRefresh, TrackSchedule};
use scuffle_video::player::requests::{QueuedRequest, RequestQueue};
use scuffle_video::thumbnail::RoomThubnailSettings;
use scuffle_video::player::track::{next_live_request, LiveRequest};
use scuffle_video::rendition_text::SegmentDurations;
use scuffle_video::types::{
    RenditionPlaylist, RenditionPlaylistRendition, RenditionPlaylistSegment,
    RenditionPlaylistSegmentPart, RoomPlaylistTrack, RoomPlaylistTrackAudio,
    RoomPlaylistTrackVideo, SessionPlaylist,
};

const ORG: &str = "00000000000000000000000000";
const ROOM: &str = "00000000000000000000000001";

fn part(id: &str, independent: bool) -> RenditionPlaylistSegmentPart {
    RenditionPlaylistSegmentPart { id: id.to_string(), independent }
}

fn live_playlist() -> RenditionPlaylist {
    RenditionPlaylist {
        segments: vec![RenditionPlaylistSegment {
            id: Some("s1".to_string()),
            idx: 1,
            dvr_tag: None,
            parts: vec![part("p1", true), part("p2", false)],
        }],
        pre_fetch_part_ids: vec!["p3".to_string()],
        last_pre_fetch_part_idx: 3,
        init_segment_id: "init".to_string(),
        init_dvr: false,
        finished: false,
        renditions: vec![RenditionPlaylistRendition {
            name: "audio".to_string(),
            last_segment_idx: 1,
            last_independent_part_idx: 0,
            last_segment_part_idx: 2,
        }],
        msn: 1,
        skip_segments: 0,
        dvr_prefix: None,
        thumbnail_prefix: None,
    }
}

fn durations() -> Vec<SegmentDurations> {
    vec![SegmentDurations {
        parts: vec!["0.250".to_string(), "0.250".to_string()],
        segment: "0.500".to_string(),
    }]
}

#[test]
fn session_playlist_text() {
    let p = SessionPlaylist {
        video_tracks: vec![RoomPlaylistTrack {
            name: "720p".to_string(),
            bitrate: 2_000_000,
            codec: "avc1.64002a".to_string(),
            other: RoomPlaylistTrackVideo { width: 1280, height: 720, frame_rate: 30 },
        }],
        audio_tracks: vec![RoomPlaylistTrack {
            name: "audio".to_string(),
            bitrate: 128_000,
            codec: "opus".to_string(),
            other: RoomPlaylistTrackAudio { channels: 2, sample_rate: 48000 },
        }],
        session: "s".to_string(),
    };
    let expected = format!(
        "#EXTM3U\n#EXT-X-INDEPENDENT-SEGMENTS\n#EXT-X-MEDIA:TYPE=AUDIO,GROUP-ID=\"audio\",DEFAULT=YES,AUTOSELECT=YES,NAME=\"audio\",CHANNELS=\"2\",URI=\"/{ORG}/s/audio.m3u8\"\n#EXT-X-STREAM-INF:BANDWIDTH=2128000,CODECS=\"avc1.64002a,opus\",RESOLUTION=1280x720,FRAME-RATE=30,AUDIO=\"audio\"\n/{ORG}/s/720p.m3u8\n"
    );
    assert_eq!(p.to_m3u8(0), expected);
}

#[test]
fn session_playlist_uses_the_ulid_text() {
    let id = ulid::Ulid::from_parts(1_700_000_000_000, 12345);
    let p = SessionPlaylist { video_tracks: vec![], audio_tracks: vec![], session: "s".to_string() };
    assert_eq!(p.to_m3u8(id.0), "#EXTM3U\n#EXT-X-INDEPENDENT-SEGMENTS\n");
    let a = SessionPlaylist {
        video_tracks: vec![],
        audio_tracks: vec![RoomPlaylistTrack {
            name: "a".to_string(),
            bitrate: 1,
            codec: "c".to_string(),
            other: RoomPlaylistTrackAudio { channels: 1, sample_rate: 1 },
        }],
        session: "s".to_string(),
    };
    assert!(a.to_m3u8(id.0).contains(&format!("URI=\"/{}/s/a.m3u8\"", id)));
}

#[test]
fn rendition_playlist_live_text() {
    let p = live_playlist();
    let expected = format!(
        "#EXTM3U\n#EXT-X-VERSION:7\n#EXT-X-TARGETDURATION:5\n#EXT-X-MEDIA-SEQUENCE:1\n#EXT-DISCONTINUITY-SEQUENCE:0\n#EXT-X-PART-INF:PART-TARGET=0.250\n#EXT-X-SERVER-CONTROL:PART-HOLD-BACK=0.750,CAN-BLOCK-RELOAD=YES\n#EXT-X-MAP:URI=\"/{ORG}/{ROOM}/init.mp4\"\n#EXT-X-PART:DURATION=0.250,URI=\"/{ORG}/{ROOM}/p1.mp4\",INDEPENDENT=YES\n#EXT-X-PART:DURATION=0.250,URI=\"/{ORG}/{ROOM}/p2.mp4\"\n#EXTINF:0.500,\n/{ORG}/{ROOM}/s1.mp4\n#EXT-X-PRELOAD-HINT:TYPE=PART,SCUFFLE-PART=3,URI=\"/{ORG}/{ROOM}/p3.mp4\"\n#EXT-X-RENDITION-REPORT:URI=\"./audio.m3u8\",LAST-MSN=1,LAST-PART=2\n"
    );
    assert_eq!(p.to_m3u8(&durations(), 0, Some(1)), expected);
}

#[test]
fn rendition_playlist_recording_text() {
    let p = RenditionPlaylist {
        segments: vec![RenditionPlaylistSegment {
            id: None,
            idx: 4,
            dvr_tag: Some("t4.mp4".to_string()),
            parts: vec![],
        }],
        pre_fetch_part_ids: vec![],
        last_pre_fetch_part_idx: 0,
        init_segment_id: "init.mp4".to_string(),
        init_dvr: true,
        finished: true,
        renditions: vec![],
        msn: 4,
        skip_segments: 2,
        dvr_prefix: Some("https://dvr.example/r".to_string()),
        thumbnail_prefix: None,
    };
    let d = vec![SegmentDurations { parts: vec![], segment: "2.000".to_string() }];
    let expected = "#EXTM3U\n#EXT-X-VERSION:6\n#EXT-X-TARGETDURATION:5\n#EXT-X-PLAYLIST-TYPE:VOD\n#EXT-X-MEDIA-SEQUENCE:4\n#EXT-DISCONTINUITY-SEQUENCE:0\n#EXT-X-SKIP:SKIPPED-SEGMENTS=2\n#EXT-X-MAP:URI=\"https://dvr.example/r/init.mp4\"\n#EXTINF:2.000,\nhttps://dvr.example/r/t4.mp4\n#EXT-X-ENDLIST\n";
    assert_eq!(p.to_m3u8(&d, 0, None), expected);
}

#[test]
fn part_numbers() {
    let p = live_playlist();
    assert_eq!(p.part_idx("p1"), Some((1, false)));
    assert_eq!(p.part_idx("p2"), Some((2, false)));
    assert_eq!(p.part_idx("p3"), Some((3, true)));
    assert_eq!(p.part_idx("nope"), None);
    assert_eq!(p.part(3), Some(("p3".to_string(), true)));
    assert_eq!(p.part(0), Some(("p1".to_string(), false)));
    assert_eq!(p.part(4), None);
}

#[test]
fn live_requests() {
    let p = live_playlist();
    assert_eq!(
        next_live_request(&p, true, Some(1), None),
        LiveRequest::Part { id: "p2".to_string(), idx: 2 }
    );
    assert_eq!(
        next_live_request(&p, true, None, None),
        LiveRequest::Part { id: "p1".to_string(), idx: 1 }
    );
    assert_eq!(next_live_request(&p, true, Some(3), None), LiveRequest::Nothing);
    assert_eq!(
        next_live_request(&p, false, None, None),
        LiveRequest::Segment { id: "s1".to_string(), idx: 1, position: 0 }
    );
    assert_eq!(
        next_live_request(&p, false, None, Some(0)),
        LiveRequest::Segment { id: "s1".to_string(), idx: 1, position: 0 }
    );
    assert_eq!(next_live_request(&p, false, None, Some(1)), LiveRequest::Nothing);
}

#[test]
fn independent_part_start() {
    let p = live_playlist();
    let s = p.ipart_start();
    assert_eq!(s.last_requested_part, Some(0));
    assert_eq!(s.segment, 0);
    assert_eq!(s.parts_before, 0);
}

#[test]
fn finishing_drops_announced_parts() {
    let mut p = live_playlist();
    p.finish_prefetch();
    assert!(p.pre_fetch_part_ids.is_empty());
    assert_eq!(p.last_pre_fetch_part_idx, 2);
    let mut q = live_playlist();
    q.last_pre_fetch_part_idx = 0;
    q.pre_fetch_part_ids = vec!["a".to_string(), "b".to_string()];
    q.finish_prefetch();
    assert_eq!(q.last_pre_fetch_part_idx, 0);
}

#[test]
fn thumbnail_address_parts() {
    let s = RoomThubnailSettings {
        server: None,
        organization_id: "org".to_string(),
        room_id: "room".to_string(),
        token: Some("t".to_string()),
    };
    assert_eq!(s.server_address(), "https://edge.scuffle.video");
    assert_eq!(s.image_path(), "/org/room.jpg");
    assert_eq!(s.token_pair(), Some(("token".to_string(), "t".to_string())));
    let o = RoomThubnailSettings { server: Some("https://x.example".to_string()), token: None, ..s };
    assert_eq!(o.server_address(), "https://x.example");
    assert_eq!(o.token_pair(), None);
}

#[test]
fn flags_left_out_of_json() {
    assert!(scuffle_video::types::is_false(&false));
    assert!(!scuffle_video::types::is_false(&true));
}

#[test]
fn thumbnail_addresses() {
    let s = RoomThubnailSettings {
        server: None,
        organization_id: "org".to_string(),
        room_id: "room".to_string(),
        token: Some("t".to_string()),
    };
    assert_eq!(
        scuffle_video::thumbnail::get_room_thumbnail(s.clone()).unwrap(),
        "https://edge.scuffle.video/org/room.jpg?token=t"
    );
    let o = RoomThubnailSettings { server: Some("https://x.example/base/".to_string()), token: None, ..s.clone() };
    assert_eq!(scuffle_video::thumbnail::get_room_thumbnail(o).unwrap(), "https://x.example/org/room.jpg");
    let bad = RoomThubnailSettings { server: Some("nope".to_string()), ..s };
    assert!(scuffle_video::thumbnail::get_room_thumbnail(bad).is_none());
}

#[test]
fn server_reports_stream_finished() {
    let mut p = live_playlist();
    let mut s = TrackSchedule::new();
    let mut q: RequestQueue<()> = RequestQueue::new();
    q.push(QueuedRequest { url: "a".to_string(), is_part: true, item: () });
    stream_finished_by_server(&mut s, &mut p, &mut q);
    assert!(s.finished);
    assert_eq!(s.refresh, ManifestRefresh::Time);
    assert_eq!(q.len(), 0);
    assert!(p.pre_fetch_part_ids.is_empty());
    assert_eq!(p.last_pre_fetch_part_idx, 2);
}
