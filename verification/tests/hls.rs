use scuffle_video::hls::attributes::parse_attributes;
use scuffle_video::hls::master::{MasterPlaylist, MediaType};
use scuffle_video::hls::media::MediaPlaylist;
use scuffle_video::hls::tags::{parse_tags, PlaylistType, Tag};

fn chars(s: &str) -> Vec<char> {
    s.chars().collect()
}

#[test]
fn attributes_quoted_values_keep_commas() {
    let attrs = parse_attributes(&chars("BANDWIDTH=123,CODECS=\"a,b\",NAME=x")).unwrap();
    assert_eq!(attrs.get("BANDWIDTH").unwrap(), "123");
    assert_eq!(attrs.get("CODECS").unwrap(), "a,b");
    assert_eq!(attrs.get("NAME").unwrap(), "x");
    assert!(attrs.get("MISSING").is_none());
}

#[test]
fn attributes_escapes() {
    let attrs = parse_attributes(&chars("A=\"x\\\"y\\n\"")).unwrap();
    assert_eq!(attrs.get("A").unwrap(), "x\"y\n");
}

#[test]
fn attributes_bad_escape_is_refused() {
    let r = parse_attributes(&chars("A=\"x\\q\""));
    assert_eq!(r.unwrap_err(), "invalid attribute3");
    let r = parse_attributes(&chars("A=\"x\\"));
    assert_eq!(r.unwrap_err(), "invalid attribute2");
    let r = parse_attributes(&chars("\"lonely\""));
    assert_eq!(r.unwrap_err(), "invalid attribute4");
}

#[test]
fn attributes_last_value_wins() {
    let attrs = parse_attributes(&chars("A=1,A=2")).unwrap();
    assert_eq!(attrs.get("A").unwrap(), "2");
}

#[test]
fn tags_of_a_media_playlist() {
    let text = "#EXTM3U\n#EXT-X-VERSION:6\n\n#EXT-X-TARGETDURATION:5\n#EXT-X-PLAYLIST-TYPE:VOD\n#EXTINF:4.000,\nseg0.mp4\n#EXT-X-ENDLIST\n";
    let tags = parse_tags(text).unwrap();
    assert_eq!(tags.len(), 6);
    assert!(matches!(tags[0], Tag::ExtM3u));
    assert!(matches!(tags[1], Tag::ExtXVersion(6)));
    assert!(matches!(tags[2], Tag::ExtXTargetDuration(5)));
    assert!(matches!(tags[3], Tag::ExtXPlaylistType(PlaylistType::Vod)));
    match &tags[4] {
        Tag::ExtInf(d, uri) => {
            assert_eq!(d, "4.000");
            assert_eq!(uri, "seg0.mp4");
        }
        _ => panic!("expected EXTINF"),
    }
    assert!(matches!(tags[5], Tag::ExtXEndList));
}

#[test]
fn tags_unknown_line() {
    let tags = parse_tags("hello world").unwrap();
    match &tags[0] {
        Tag::Unknown(s) => assert_eq!(s, "hello world"),
        _ => panic!("expected an unknown tag"),
    }
}

#[test]
fn media_playlist_from_tags() {
    let text = "#EXTM3U\n#EXT-X-VERSION:6\n#EXT-X-TARGETDURATION:5\n#EXT-X-MEDIA-SEQUENCE:7\n#EXTINF:4.000,\nseg7.mp4\n#EXTINF:3.500,\nseg8.mp4\n#EXT-X-ENDLIST\n";
    let tags = parse_tags(text).unwrap();
    let p = MediaPlaylist::from_tags(tags).unwrap();
    assert_eq!(p.version, 6);
    assert_eq!(p.target_duration, 5);
    assert_eq!(p.media_sequence, 7);
    assert!(p.end_list);
    assert_eq!(p.segments.len(), 2);
    assert_eq!(p.segments[0].sn, 7);
    assert_eq!(p.segments[1].sn, 8);
    assert_eq!(p.segments[0].url, "seg7.mp4");
    assert_eq!(p.segments[1].duration.as_deref(), Some("3.500"));
}

#[test]
fn media_playlist_needs_a_version() {
    let tags = parse_tags("#EXTM3U\n#EXT-X-TARGETDURATION:5\n").unwrap();
    assert_eq!(MediaPlaylist::from_tags(tags).unwrap_err(), "no #EXT-X-VERSION tag found");
    let tags = parse_tags("#EXTM3U\n#EXT-X-VERSION:3\n").unwrap();
    assert_eq!(MediaPlaylist::from_tags(tags).unwrap_err(), "no #EXT-X-TARGETDURATION tag found");
}

#[test]
fn master_playlist_groups_and_streams() {
    let text = "#EXTM3U\n#EXT-X-MEDIA:TYPE=AUDIO,GROUP-ID=\"aud\",NAME=\"en\",AUTOSELECT=YES,DEFAULT=YES\n#EXT-X-STREAM-INF:BANDWIDTH=2000,CODECS=\"avc1\",RESOLUTION=1280x720,NAME=\"hd\",GROUP=\"g\",AUDIO=\"aud\"\nhd.m3u8\n";
    let tags = parse_tags(text).unwrap();
    let m = MasterPlaylist::from_tags(tags).unwrap();
    assert_eq!(m.streams.len(), 1);
    assert_eq!(m.streams[0].uri, "hd.m3u8");
    assert_eq!(m.streams[0].bandwidth, 2000);
    assert_eq!(m.streams[0].resolution, Some((1280, 720)));
    assert_eq!(m.streams[0].audio.as_deref(), Some("aud"));
    assert_eq!(m.groups.len(), 1);
    assert_eq!(m.groups[0].0, "aud");
    assert_eq!(m.groups[0].1.len(), 1);
    assert!(m.groups[0].1[0].media_type == MediaType::Audio);
    assert!(m.groups[0].1[0].autoselect);
    assert_eq!(m.groups[0].1[0].name, "en");
}

#[test]
fn master_stream_without_name_is_skipped() {
    let text = "#EXTM3U\n#EXT-X-STREAM-INF:BANDWIDTH=2000,CODECS=\"avc1\",GROUP=\"g\"\nhd.m3u8\n";
    let tags = parse_tags(text).unwrap();
    let m = MasterPlaylist::from_tags(tags).unwrap();
    assert_eq!(m.streams.len(), 0);
}

#[test]
fn master_tags_are_recognised() {
    let tags = parse_tags("#EXTM3U\n#EXT-X-ENDLIST\n").unwrap();
    assert!(tags[0].is_master_tag());
    assert!(!tags[1].is_master_tag());
}

#[test]
fn tag_errors() {
    assert_eq!(parse_tags("#EXT-X-VERSION:abc").unwrap_err(), "invalid version");
    assert_eq!(parse_tags("#EXT-X-VERSION:300").unwrap_err(), "invalid version");
    assert_eq!(parse_tags("#EXTINF:4.0,").unwrap_err(), "invalid uri");
    assert_eq!(parse_tags("#EXTINF:four,\nx.mp4").unwrap_err(), "invalid duration");
    assert_eq!(parse_tags("#EXT-X-STREAM-INF:BANDWIDTH=1").unwrap_err(), "invalid stream inf");
    assert_eq!(parse_tags("#EXT-X-PLAYLIST-TYPE:live").unwrap_err(), "invalid playlist type");
    assert_eq!(parse_tags("#EXT-X-BYTERANGE:1@x").unwrap_err(), "invalid byterange");
}

#[test]
fn tag_values() {
    let tags = parse_tags("#EXT-X-BYTERANGE:100@5\n#EXT-X-BYTERANGE:7\n#EXT-X-PLAYLIST-TYPE:vod\n#EXTINF:2,\n\nseg.mp4\n#EXT-X-DISCONTINUITY-SEQUENCE:3\n#EXT-X-DISCONTINUITY\n#EXT-X-PART-INF:PART-TARGET=0.5").unwrap();
    assert!(matches!(tags[0], Tag::ExtXByteRange(100, Some(5))));
    assert!(matches!(tags[1], Tag::ExtXByteRange(7, None)));
    assert!(matches!(tags[2], Tag::ExtXPlaylistType(PlaylistType::Vod)));
    match &tags[3] {
        Tag::ExtInf(d, uri) => {
            assert_eq!(d, "2");
            assert_eq!(uri, "seg.mp4");
        }
        _ => panic!("expected EXTINF"),
    }
    assert!(matches!(tags[4], Tag::ExtXDiscontinuitySequence(3)));
    assert!(matches!(tags[5], Tag::ExtXDiscontinuity));
    match &tags[6] {
        Tag::ExtXPartInf(a) => assert_eq!(a.get("PART-TARGET").unwrap(), "0.5"),
        _ => panic!("expected PART-INF"),
    }
}

#[test]
fn low_latency_media_playlist() {
    let text = "#EXTM3U\n#EXT-X-VERSION:9\n#EXT-X-TARGETDURATION:4\n#EXT-X-MEDIA-SEQUENCE:10\n#EXT-X-PART-INF:PART-TARGET=0.5\n#EXT-X-SERVER-CONTROL:CAN-BLOCK-RELOAD=YES,PART-HOLD-BACK=1.5\n#EXT-X-PART:DURATION=0.5,URI=\"p1.mp4\",INDEPENDENT=YES\n#EXT-X-PART:DURATION=0.5,URI=\"p2.mp4\"\n#EXTINF:1.0,\ns10.mp4\n#EXT-X-PART:DURATION=0.5,URI=\"p3.mp4\"\n#EXT-X-PRELOAD-HINT:TYPE=PART,URI=\"p4.mp4\"\n#EXT-X-RENDITION-REPORT:URI=\"a.m3u8\",LAST-MSN=11,LAST-PART=0\n";
    let p = MediaPlaylist::from_tags(parse_tags(text).unwrap()).unwrap();
    assert_eq!(p.part_target_duration.as_deref(), Some("0.5"));
    assert!(p.server_control.as_ref().unwrap().can_block_reload);
    assert_eq!(p.segments.len(), 2);
    assert_eq!(p.segments[0].sn, 10);
    assert_eq!(p.segments[0].parts.len(), 2);
    assert!(p.segments[0].parts[0].independent);
    assert_eq!(p.segments[1].sn, 11);
    assert_eq!(p.segments[1].url, "");
    assert_eq!(p.segments[1].parts[0].uri, "p3.mp4");
    assert_eq!(p.preload_hint.len(), 1);
    assert_eq!(p.preload_hint[0].uri, "p4.mp4");
    assert_eq!(p.rendition_reports[0].last_msn, 11);
}
