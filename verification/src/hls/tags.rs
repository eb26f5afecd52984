//! Playlist tags: one tag per line (two for `#EXTINF` and `#EXT-X-STREAM-INF`).

use vstd::prelude::*;

use crate::hls::attributes::{attributes_of, parse_attributes, Attributes};
use crate::text::{
    after_sep, after_sep_of, chars_eq, chars_of, first_field, first_field_of, has_prefix, is_float,
    is_float_text, parse_u32, parse_u8, seqs_of, split_lines, string_of, strip_prefix, tail,
    text_lines, to_upper, lemma_char_pos, unsigned_in_range, uppercase,
};

verus! {

/// The type that `#EXT-X-PLAYLIST-TYPE` declares.
#[derive(Debug, Clone, Copy, PartialEq, Eq, Structural)]
pub enum PlaylistType {
    Event,
    Vod,
}

/// A playlist tag.
#[derive(Debug, Clone)]
pub enum Tag {
    ExtM3u,
    ExtXVersion(u8),
    ExtXIndependentSegments,
    ExtXStart(Attributes),
    ExtXDefine(Attributes),
    ExtXTargetDuration(u32),
    ExtXMediaSequence(u32),
    ExtXDiscontinuitySequence(u32),
    ExtXEndList,
    ExtXPlaylistType(PlaylistType),
    ExtXIFramesOnly,
    ExtXPartInf(Attributes),
    ExtXServerControl(Attributes),
    /// The duration text (a float as std parses it) and the URI on the next line.
    ExtInf(String, String),
    /// The length and the optional offset.
    ExtXByteRange(u32, Option<u32>),
    ExtXDiscontinuity,
    ExtXKey(Attributes),
    ExtXMap(Attributes),
    ExtXProgramDateTime(String),
    ExtXGap,
    ExtXBitrate(u32),
    ExtXPart(Attributes),
    ExtXDateRange(Attributes),
    ExtXSkip(Attributes),
    ExtXPreloadHint(Attributes),
    ExtXRenditionReport(Attributes),
    ExtXMedia(Attributes),
    /// The attributes and the URI on the next line.
    ExtXStreamInf(Attributes, String),
    ExtXIFrameStreamInf(Attributes),
    ExtXSessionData(Attributes),
    ExtXSessionKey(Attributes),
    ExtXContentSteering(Attributes),
    ExtXScufGroup(Attributes),
    /// A line that no other tag matches.
    Unknown(String),
}

/// What a tag holds, as mathematical values.
pub enum TagView {
    ExtM3u,
    ExtXVersion(u8),
    ExtXIndependentSegments,
    ExtXStart(Map<Seq<char>, Seq<char>>),
    ExtXDefine(Map<Seq<char>, Seq<char>>),
    ExtXTargetDuration(u32),
    ExtXMediaSequence(u32),
    ExtXDiscontinuitySequence(u32),
    ExtXEndList,
    ExtXPlaylistType(PlaylistType),
    ExtXIFramesOnly,
    ExtXPartInf(Map<Seq<char>, Seq<char>>),
    ExtXServerControl(Map<Seq<char>, Seq<char>>),
    ExtInf(Seq<char>, Seq<char>),
    ExtXByteRange(u32, Option<u32>),
    ExtXDiscontinuity,
    ExtXKey(Map<Seq<char>, Seq<char>>),
    ExtXMap(Map<Seq<char>, Seq<char>>),
    ExtXProgramDateTime(Seq<char>),
    ExtXGap,
    ExtXBitrate(u32),
    ExtXPart(Map<Seq<char>, Seq<char>>),
    ExtXDateRange(Map<Seq<char>, Seq<char>>),
    ExtXSkip(Map<Seq<char>, Seq<char>>),
    ExtXPreloadHint(Map<Seq<char>, Seq<char>>),
    ExtXRenditionReport(Map<Seq<char>, Seq<char>>),
    ExtXMedia(Map<Seq<char>, Seq<char>>),
    ExtXStreamInf(Map<Seq<char>, Seq<char>>, Seq<char>),
    ExtXIFrameStreamInf(Map<Seq<char>, Seq<char>>),
    ExtXSessionData(Map<Seq<char>, Seq<char>>),
    ExtXSessionKey(Map<Seq<char>, Seq<char>>),
    ExtXContentSteering(Map<Seq<char>, Seq<char>>),
    ExtXScufGroup(Map<Seq<char>, Seq<char>>),
    Unknown(Seq<char>),
}

impl View for Tag {
    type V = TagView;

    open spec fn view(&self) -> TagView {
        match self {
            Tag::ExtM3u => TagView::ExtM3u,
            Tag::ExtXVersion(x0) => TagView::ExtXVersion(*x0),
            Tag::ExtXIndependentSegments => TagView::ExtXIndependentSegments,
            Tag::ExtXStart(x0) => TagView::ExtXStart(x0@),
            Tag::ExtXDefine(x0) => TagView::ExtXDefine(x0@),
            Tag::ExtXTargetDuration(x0) => TagView::ExtXTargetDuration(*x0),
            Tag::ExtXMediaSequence(x0) => TagView::ExtXMediaSequence(*x0),
            Tag::ExtXDiscontinuitySequence(x0) => TagView::ExtXDiscontinuitySequence(*x0),
            Tag::ExtXEndList => TagView::ExtXEndList,
            Tag::ExtXPlaylistType(x0) => TagView::ExtXPlaylistType(*x0),
            Tag::ExtXIFramesOnly => TagView::ExtXIFramesOnly,
            Tag::ExtXPartInf(x0) => TagView::ExtXPartInf(x0@),
            Tag::ExtXServerControl(x0) => TagView::ExtXServerControl(x0@),
            Tag::ExtInf(x0, x1) => TagView::ExtInf(x0@, x1@),
            Tag::ExtXByteRange(x0, x1) => TagView::ExtXByteRange(*x0, *x1),
            Tag::ExtXDiscontinuity => TagView::ExtXDiscontinuity,
            Tag::ExtXKey(x0) => TagView::ExtXKey(x0@),
            Tag::ExtXMap(x0) => TagView::ExtXMap(x0@),
            Tag::ExtXProgramDateTime(x0) => TagView::ExtXProgramDateTime(x0@),
            Tag::ExtXGap => TagView::ExtXGap,
            Tag::ExtXBitrate(x0) => TagView::ExtXBitrate(*x0),
            Tag::ExtXPart(x0) => TagView::ExtXPart(x0@),
            Tag::ExtXDateRange(x0) => TagView::ExtXDateRange(x0@),
            Tag::ExtXSkip(x0) => TagView::ExtXSkip(x0@),
            Tag::ExtXPreloadHint(x0) => TagView::ExtXPreloadHint(x0@),
            Tag::ExtXRenditionReport(x0) => TagView::ExtXRenditionReport(x0@),
            Tag::ExtXMedia(x0) => TagView::ExtXMedia(x0@),
            Tag::ExtXStreamInf(x0, x1) => TagView::ExtXStreamInf(x0@, x1@),
            Tag::ExtXIFrameStreamInf(x0) => TagView::ExtXIFrameStreamInf(x0@),
            Tag::ExtXSessionData(x0) => TagView::ExtXSessionData(x0@),
            Tag::ExtXSessionKey(x0) => TagView::ExtXSessionKey(x0@),
            Tag::ExtXContentSteering(x0) => TagView::ExtXContentSteering(x0@),
            Tag::ExtXScufGroup(x0) => TagView::ExtXScufGroup(x0@),
            Tag::Unknown(x0) => TagView::Unknown(x0@),
        }
    }
}

/// The views of a sequence of tags.
pub open spec fn tag_views(t: Seq<Tag>) -> Seq<TagView> {
    t.map_values(|x: Tag| x@)
}

/// A tag with attributes, or the attribute list's error.
pub open spec fn attr_tag(
    a: Result<Map<Seq<char>, Seq<char>>, Seq<char>>,
    mk: spec_fn(Map<Seq<char>, Seq<char>>) -> TagView,
) -> Result<(TagView, bool), Seq<char>> {
    match a {
        Ok(m) => Ok((mk(m), false)),
        Err(e) => Err(e),
    }
}

/// A tag with a number, or `msg` when the number does not parse.
pub open spec fn number_tag(n: Option<nat>, mk: spec_fn(nat) -> TagView, msg: Seq<char>) -> Result<
    (TagView, bool),
    Seq<char>,
> {
    match n {
        Some(v) => Ok((mk(v), false)),
        None => Err(msg),
    }
}

/// The byte range of `#EXT-X-BYTERANGE:<length>[@<offset>]`.
pub open spec fn byte_range_tag(rest: Seq<char>) -> Result<(TagView, bool), Seq<char>> {
    match unsigned_in_range(first_field(rest, '@'), u32::MAX as nat) {
        None => Err("invalid byterange"@),
        Some(len) => match after_sep(rest, '@') {
            None => Ok((TagView::ExtXByteRange(len as u32, None), false)),
            Some(r) => match unsigned_in_range(first_field(r, '@'), u32::MAX as nat) {
                Some(off) => Ok((TagView::ExtXByteRange(len as u32, Some(off as u32)), false)),
                None => Err("invalid byterange"@),
            },
        },
    }
}

/// The tag of one playlist line; `next` is the following line. The flag
/// tells whether the tag took the following line too.
pub open spec fn line_tag(line: Seq<char>, next: Option<Seq<char>>) -> Result<(TagView, bool), Seq<char>> {
    if line == "#EXTM3U"@ {
        Ok((TagView::ExtM3u, false))
    } else if has_prefix(line, "#EXT-X-VERSION:"@) {
        number_tag(unsigned_in_range(tail(line, "#EXT-X-VERSION:"@), u8::MAX as nat), |x: nat| TagView::ExtXVersion(x as u8), "invalid version"@)
    } else if has_prefix(line, "#EXT-X-INDEPENDENT-SEGMENTS"@) {
        Ok((TagView::ExtXIndependentSegments, false))
    } else if has_prefix(line, "#EXT-X-START:"@) {
        attr_tag(attributes_of(tail(line, "#EXT-X-START:"@)), |m: Map<Seq<char>, Seq<char>>| TagView::ExtXStart(m))
    } else if has_prefix(line, "#EXT-X-DEFINE:"@) {
        attr_tag(attributes_of(tail(line, "#EXT-X-DEFINE:"@)), |m: Map<Seq<char>, Seq<char>>| TagView::ExtXDefine(m))
    } else if has_prefix(line, "#EXT-X-TARGETDURATION:"@) {
        number_tag(unsigned_in_range(tail(line, "#EXT-X-TARGETDURATION:"@), u32::MAX as nat), |x: nat| TagView::ExtXTargetDuration(x as u32), "invalid target duration"@)
    } else if has_prefix(line, "#EXT-X-MEDIA-SEQUENCE:"@) {
        number_tag(unsigned_in_range(tail(line, "#EXT-X-MEDIA-SEQUENCE:"@), u32::MAX as nat), |x: nat| TagView::ExtXMediaSequence(x as u32), "invalid media sequence"@)
    } else if has_prefix(line, "#EXT-X-DISCONTINUITY-SEQUENCE:"@) {
        number_tag(unsigned_in_range(tail(line, "#EXT-X-DISCONTINUITY-SEQUENCE:"@), u32::MAX as nat), |x: nat| TagView::ExtXDiscontinuitySequence(x as u32), "invalid discontinuity sequence"@)
    } else if has_prefix(line, "#EXT-X-ENDLIST"@) {
        Ok((TagView::ExtXEndList, false))
    } else if has_prefix(line, "#EXT-X-PLAYLIST-TYPE:"@) {
        if uppercase(tail(line, "#EXT-X-PLAYLIST-TYPE:"@)) == "EVENT"@ {
            Ok((TagView::ExtXPlaylistType(PlaylistType::Event), false))
        } else if uppercase(tail(line, "#EXT-X-PLAYLIST-TYPE:"@)) == "VOD"@ {
            Ok((TagView::ExtXPlaylistType(PlaylistType::Vod), false))
        } else {
            Err("invalid playlist type"@)
        }
    } else if has_prefix(line, "#EXT-X-I-FRAMES-ONLY"@) {
        Ok((TagView::ExtXIFramesOnly, false))
    } else if has_prefix(line, "#EXT-X-PART-INF:"@) {
        attr_tag(attributes_of(tail(line, "#EXT-X-PART-INF:"@)), |m: Map<Seq<char>, Seq<char>>| TagView::ExtXPartInf(m))
    } else if has_prefix(line, "#EXT-X-SERVER-CONTROL:"@) {
        attr_tag(attributes_of(tail(line, "#EXT-X-SERVER-CONTROL:"@)), |m: Map<Seq<char>, Seq<char>>| TagView::ExtXServerControl(m))
    } else if has_prefix(line, "#EXT-X-SESSION-KEY:"@) {
        attr_tag(attributes_of(tail(line, "#EXT-X-SESSION-KEY:"@)), |m: Map<Seq<char>, Seq<char>>| TagView::ExtXSessionKey(m))
    } else if has_prefix(line, "#EXT-X-SESSION-DATA:"@) {
        attr_tag(attributes_of(tail(line, "#EXT-X-SESSION-DATA:"@)), |m: Map<Seq<char>, Seq<char>>| TagView::ExtXSessionData(m))
    } else if has_prefix(line, "#EXTINF:"@) {
        if !is_float_text(first_field(tail(line, "#EXTINF:"@), ',')) {
            Err("invalid duration"@)
        } else {
            match next {
                Some(uri) => Ok((TagView::ExtInf(first_field(tail(line, "#EXTINF:"@), ','), uri), true)),
                None => Err("invalid uri"@),
            }
        }
    } else if has_prefix(line, "#EXT-X-BYTERANGE:"@) {
        byte_range_tag(tail(line, "#EXT-X-BYTERANGE:"@))
    } else if has_prefix(line, "#EXT-X-DISCONTINUITY"@) {
        Ok((TagView::ExtXDiscontinuity, false))
    } else if has_prefix(line, "#EXT-X-KEY:"@) {
        attr_tag(attributes_of(tail(line, "#EXT-X-KEY:"@)), |m: Map<Seq<char>, Seq<char>>| TagView::ExtXKey(m))
    } else if has_prefix(line, "#EXT-X-MAP:"@) {
        attr_tag(attributes_of(tail(line, "#EXT-X-MAP:"@)), |m: Map<Seq<char>, Seq<char>>| TagView::ExtXMap(m))
    } else if has_prefix(line, "#EXT-X-PROGRAM-DATE-TIME:"@) {
        Ok((TagView::ExtXProgramDateTime(tail(line, "#EXT-X-PROGRAM-DATE-TIME:"@)), false))
    } else if has_prefix(line, "#EXT-X-GAP"@) {
        Ok((TagView::ExtXGap, false))
    } else if has_prefix(line, "#EXT-X-BITRATE:"@) {
        number_tag(unsigned_in_range(tail(line, "#EXT-X-BITRATE:"@), u32::MAX as nat), |x: nat| TagView::ExtXBitrate(x as u32), "invalid bitrate"@)
    } else if has_prefix(line, "#EXT-X-PART:"@) {
        attr_tag(attributes_of(tail(line, "#EXT-X-PART:"@)), |m: Map<Seq<char>, Seq<char>>| TagView::ExtXPart(m))
    } else if has_prefix(line, "#EXT-X-PRELOAD-HINT:"@) {
        attr_tag(attributes_of(tail(line, "#EXT-X-PRELOAD-HINT:"@)), |m: Map<Seq<char>, Seq<char>>| TagView::ExtXPreloadHint(m))
    } else if has_prefix(line, "#EXT-X-DATERANGE:"@) {
        attr_tag(attributes_of(tail(line, "#EXT-X-DATERANGE:"@)), |m: Map<Seq<char>, Seq<char>>| TagView::ExtXDateRange(m))
    } else if has_prefix(line, "#EXT-X-SKIP:"@) {
        attr_tag(attributes_of(tail(line, "#EXT-X-SKIP:"@)), |m: Map<Seq<char>, Seq<char>>| TagView::ExtXSkip(m))
    } else if has_prefix(line, "#EXT-X-RENDITION-REPORT:"@) {
        attr_tag(attributes_of(tail(line, "#EXT-X-RENDITION-REPORT:"@)), |m: Map<Seq<char>, Seq<char>>| TagView::ExtXRenditionReport(m))
    } else if has_prefix(line, "#EXT-X-MEDIA:"@) {
        attr_tag(attributes_of(tail(line, "#EXT-X-MEDIA:"@)), |m: Map<Seq<char>, Seq<char>>| TagView::ExtXMedia(m))
    } else if has_prefix(line, "#EXT-X-STREAM-INF:"@) {
        match attributes_of(tail(line, "#EXT-X-STREAM-INF:"@)) {
            Err(e) => Err(e),
            Ok(m) => match next {
                Some(uri) => Ok((TagView::ExtXStreamInf(m, uri), true)),
                None => Err("invalid stream inf"@),
            },
        }
    } else if has_prefix(line, "#EXT-X-I-FRAME-STREAM-INF:"@) {
        attr_tag(attributes_of(tail(line, "#EXT-X-I-FRAME-STREAM-INF:"@)), |m: Map<Seq<char>, Seq<char>>| TagView::ExtXIFrameStreamInf(m))
    } else if has_prefix(line, "#EXT-X-CONTENT-STEERING:"@) {
        attr_tag(attributes_of(tail(line, "#EXT-X-CONTENT-STEERING:"@)), |m: Map<Seq<char>, Seq<char>>| TagView::ExtXContentSteering(m))
    } else if has_prefix(line, "#EXT-X-SCUF-GROUP:"@) {
        attr_tag(attributes_of(tail(line, "#EXT-X-SCUF-GROUP:"@)), |m: Map<Seq<char>, Seq<char>>| TagView::ExtXScufGroup(m))
    } else {
        Ok((TagView::Unknown(line), false))
    }
}

/// The tags of a sequence of lines, or the first error.
pub open spec fn tags_of_lines(lines: Seq<Seq<char>>) -> Result<Seq<TagView>, Seq<char>>
    decreases lines.len(),
{
    if lines.len() == 0 {
        Ok(seq![])
    } else {
        let next = if lines.len() > 1 {
            Some(lines[1])
        } else {
            None
        };
        match line_tag(lines[0], next) {
            Err(e) => Err(e),
            Ok((t, took_next)) => {
                let rest = if took_next && lines.len() > 1 {
                    lines.skip(2)
                } else {
                    lines.skip(1)
                };
                match tags_of_lines(rest) {
                    Ok(r) => Ok(seq![t] + r),
                    Err(e) => Err(e),
                }
            },
        }
    }
}

/// The tags of a playlist text, or the first error.
pub open spec fn tags_of_text(input: Seq<char>) -> Result<Seq<TagView>, Seq<char>> {
    tags_of_lines(text_lines(input))
}

/// Reads the tag of the line at `i`; the flag tells whether it took the next line too.
fn parse_tag(lines: &Vec<Vec<char>>, i: usize) -> (r: Result<(Tag, bool), String>)
    requires
        i < lines.len(),
    ensures
        r matches Ok((t, took)) ==> line_tag(
            lines@[i as int]@,
            if i + 1 < lines.len() {
                Some(lines@[i + 1]@)
            } else {
                None
            },
        ) == Ok::<_, Seq<char>>((t@, took)),
        r matches Err(e) ==> line_tag(
            lines@[i as int]@,
            if i + 1 < lines.len() {
                Some(lines@[i + 1]@)
            } else {
                None
            },
        ) == Err::<(TagView, bool), _>(e@),
{
    let line = &lines[i];
    let ghost next: Option<Seq<char>> = if i + 1 < lines.len() {
        Some(lines@[i + 1]@)
    } else {
        None
    };
    if chars_eq(line, "#EXTM3U") {
        return Ok((Tag::ExtM3u, false));
    }
    if let Some(rest) = strip_prefix(line, "#EXT-X-VERSION:") {
        return match parse_u8(&rest) {
            Some(x) => Ok((Tag::ExtXVersion(x), false)),
            None => Err("invalid version".to_owned()),
        };
    }
    if let Some(rest) = strip_prefix(line, "#EXT-X-INDEPENDENT-SEGMENTS") {
        return Ok((Tag::ExtXIndependentSegments, false));
    }
    if let Some(rest) = strip_prefix(line, "#EXT-X-START:") {
        return match parse_attributes(&rest) {
            Ok(a) => Ok((Tag::ExtXStart(a), false)),
            Err(e) => Err(e),
        };
    }
    if let Some(rest) = strip_prefix(line, "#EXT-X-DEFINE:") {
        return match parse_attributes(&rest) {
            Ok(a) => Ok((Tag::ExtXDefine(a), false)),
            Err(e) => Err(e),
        };
    }
    if let Some(rest) = strip_prefix(line, "#EXT-X-TARGETDURATION:") {
        return match parse_u32(&rest) {
            Some(x) => Ok((Tag::ExtXTargetDuration(x), false)),
            None => Err("invalid target duration".to_owned()),
        };
    }
    if let Some(rest) = strip_prefix(line, "#EXT-X-MEDIA-SEQUENCE:") {
        return match parse_u32(&rest) {
            Some(x) => Ok((Tag::ExtXMediaSequence(x), false)),
            None => Err("invalid media sequence".to_owned()),
        };
    }
    if let Some(rest) = strip_prefix(line, "#EXT-X-DISCONTINUITY-SEQUENCE:") {
        return match parse_u32(&rest) {
            Some(x) => Ok((Tag::ExtXDiscontinuitySequence(x), false)),
            None => Err("invalid discontinuity sequence".to_owned()),
        };
    }
    if let Some(rest) = strip_prefix(line, "#EXT-X-ENDLIST") {
        return Ok((Tag::ExtXEndList, false));
    }
    if let Some(rest) = strip_prefix(line, "#EXT-X-PLAYLIST-TYPE:") {
        let up = to_upper(string_of(&rest).as_str());
        let upc = chars_of(up.as_str());
        if chars_eq(&upc, "EVENT") {
            return Ok((Tag::ExtXPlaylistType(PlaylistType::Event), false));
        } else if chars_eq(&upc, "VOD") {
            return Ok((Tag::ExtXPlaylistType(PlaylistType::Vod), false));
        } else {
            return Err("invalid playlist type".to_owned());
        }
    }
    if let Some(rest) = strip_prefix(line, "#EXT-X-I-FRAMES-ONLY") {
        return Ok((Tag::ExtXIFramesOnly, false));
    }
    if let Some(rest) = strip_prefix(line, "#EXT-X-PART-INF:") {
        return match parse_attributes(&rest) {
            Ok(a) => Ok((Tag::ExtXPartInf(a), false)),
            Err(e) => Err(e),
        };
    }
    if let Some(rest) = strip_prefix(line, "#EXT-X-SERVER-CONTROL:") {
        return match parse_attributes(&rest) {
            Ok(a) => Ok((Tag::ExtXServerControl(a), false)),
            Err(e) => Err(e),
        };
    }
    if let Some(rest) = strip_prefix(line, "#EXT-X-SESSION-KEY:") {
        return match parse_attributes(&rest) {
            Ok(a) => Ok((Tag::ExtXSessionKey(a), false)),
            Err(e) => Err(e),
        };
    }
    if let Some(rest) = strip_prefix(line, "#EXT-X-SESSION-DATA:") {
        return match parse_attributes(&rest) {
            Ok(a) => Ok((Tag::ExtXSessionData(a), false)),
            Err(e) => Err(e),
        };
    }
    if let Some(rest) = strip_prefix(line, "#EXTINF:") {
        let duration = first_field_of(&rest, ',');
        if !is_float(&duration) {
            return Err("invalid duration".to_owned());
        }
        if i + 1 < lines.len() {
            return Ok((Tag::ExtInf(string_of(&duration), string_of(&lines[i + 1])), true));
        } else {
            return Err("invalid uri".to_owned());
        }
    }
    if let Some(rest) = strip_prefix(line, "#EXT-X-BYTERANGE:") {
        let length = match parse_u32(&first_field_of(&rest, '@')) {
            Some(x) => x,
            None => {
                return Err("invalid byterange".to_owned());
            },
        };
        return match after_sep_of(&rest, '@') {
            None => Ok((Tag::ExtXByteRange(length, None), false)),
            Some(r2) => match parse_u32(&first_field_of(&r2, '@')) {
                Some(off) => Ok((Tag::ExtXByteRange(length, Some(off)), false)),
                None => Err("invalid byterange".to_owned()),
            },
        };
    }
    if let Some(rest) = strip_prefix(line, "#EXT-X-DISCONTINUITY") {
        return Ok((Tag::ExtXDiscontinuity, false));
    }
    if let Some(rest) = strip_prefix(line, "#EXT-X-KEY:") {
        return match parse_attributes(&rest) {
            Ok(a) => Ok((Tag::ExtXKey(a), false)),
            Err(e) => Err(e),
        };
    }
    if let Some(rest) = strip_prefix(line, "#EXT-X-MAP:") {
        return match parse_attributes(&rest) {
            Ok(a) => Ok((Tag::ExtXMap(a), false)),
            Err(e) => Err(e),
        };
    }
    if let Some(rest) = strip_prefix(line, "#EXT-X-PROGRAM-DATE-TIME:") {
        return Ok((Tag::ExtXProgramDateTime(string_of(&rest)), false));
    }
    if let Some(rest) = strip_prefix(line, "#EXT-X-GAP") {
        return Ok((Tag::ExtXGap, false));
    }
    if let Some(rest) = strip_prefix(line, "#EXT-X-BITRATE:") {
        return match parse_u32(&rest) {
            Some(x) => Ok((Tag::ExtXBitrate(x), false)),
            None => Err("invalid bitrate".to_owned()),
        };
    }
    if let Some(rest) = strip_prefix(line, "#EXT-X-PART:") {
        return match parse_attributes(&rest) {
            Ok(a) => Ok((Tag::ExtXPart(a), false)),
            Err(e) => Err(e),
        };
    }
    if let Some(rest) = strip_prefix(line, "#EXT-X-PRELOAD-HINT:") {
        return match parse_attributes(&rest) {
            Ok(a) => Ok((Tag::ExtXPreloadHint(a), false)),
            Err(e) => Err(e),
        };
    }
    if let Some(rest) = strip_prefix(line, "#EXT-X-DATERANGE:") {
        return match parse_attributes(&rest) {
            Ok(a) => Ok((Tag::ExtXDateRange(a), false)),
            Err(e) => Err(e),
        };
    }
    if let Some(rest) = strip_prefix(line, "#EXT-X-SKIP:") {
        return match parse_attributes(&rest) {
            Ok(a) => Ok((Tag::ExtXSkip(a), false)),
            Err(e) => Err(e),
        };
    }
    if let Some(rest) = strip_prefix(line, "#EXT-X-RENDITION-REPORT:") {
        return match parse_attributes(&rest) {
            Ok(a) => Ok((Tag::ExtXRenditionReport(a), false)),
            Err(e) => Err(e),
        };
    }
    if let Some(rest) = strip_prefix(line, "#EXT-X-MEDIA:") {
        return match parse_attributes(&rest) {
            Ok(a) => Ok((Tag::ExtXMedia(a), false)),
            Err(e) => Err(e),
        };
    }
    if let Some(rest) = strip_prefix(line, "#EXT-X-STREAM-INF:") {
        let a = match parse_attributes(&rest) {
            Ok(a) => a,
            Err(e) => {
                return Err(e);
            },
        };
        if i + 1 < lines.len() {
            return Ok((Tag::ExtXStreamInf(a, string_of(&lines[i + 1])), true));
        } else {
            return Err("invalid stream inf".to_owned());
        }
    }
    if let Some(rest) = strip_prefix(line, "#EXT-X-I-FRAME-STREAM-INF:") {
        return match parse_attributes(&rest) {
            Ok(a) => Ok((Tag::ExtXIFrameStreamInf(a), false)),
            Err(e) => Err(e),
        };
    }
    if let Some(rest) = strip_prefix(line, "#EXT-X-CONTENT-STEERING:") {
        return match parse_attributes(&rest) {
            Ok(a) => Ok((Tag::ExtXContentSteering(a), false)),
            Err(e) => Err(e),
        };
    }
    if let Some(rest) = strip_prefix(line, "#EXT-X-SCUF-GROUP:") {
        return match parse_attributes(&rest) {
            Ok(a) => Ok((Tag::ExtXScufGroup(a), false)),
            Err(e) => Err(e),
        };
    }
    Ok((Tag::Unknown(string_of(line)), false))
}

/// Parses the tags of a playlist text, line by line; empty lines are skipped.
pub fn parse_tags(input: &str) -> (r: Result<Vec<Tag>, String>)
    ensures
        r matches Ok(tags) ==> tags_of_text(input@) == Ok::<_, Seq<char>>(tag_views(tags@)),
        r matches Err(e) ==> tags_of_text(input@) == Err::<Seq<TagView>, _>(e@),
{
    let text = chars_of(input);
    let lines = split_lines(&text);
    let ghost all = seqs_of(lines@);
    let mut tags: Vec<Tag> = Vec::new();
    let mut i: usize = 0;
    assert(all.skip(0) == all);
    while i < lines.len()
        invariant
            i <= lines.len(),
            all == seqs_of(lines@),
            all == text_lines(input@),
            tags_of_lines(all) == match tags_of_lines(all.skip(i as int)) {
                Ok(rest) => Ok(tag_views(tags@) + rest),
                Err(e) => Err(e),
            },
        decreases lines.len() - i,
    {
        let ghost cur = all.skip(i as int);
        proof {
            assert(cur[0] == lines@[i as int]@);
            if i + 1 < lines.len() {
                assert(cur[1] == lines@[i + 1]@);
            }
        }
        match parse_tag(&lines, i) {
            Ok((t, took)) => {
                let step: usize = if took && i + 1 < lines.len() {
                    2
                } else {
                    1
                };
                proof {
                    assert(all.len() == lines.len());
                    assert(cur.len() == lines.len() - i);
                    let rest = cur.skip(step as int);
                    assert(rest == all.skip(i + step));
                    assert(tags_of_lines(cur) == match tags_of_lines(rest) {
                        Ok(r) => Ok(seq![t@] + r),
                        Err(e) => Err(e),
                    });
                    assert(tag_views(tags@.push(t)) == tag_views(tags@) + seq![t@]);
                    match tags_of_lines(rest) {
                        Ok(r) => {
                            assert(tag_views(tags@) + (seq![t@] + r) == (tag_views(tags@) + seq![
                                t@,
                            ]) + r);
                        },
                        Err(_) => {},
                    }
                }
                tags.push(t);
                i = i + step;
            },
            Err(e) => {
                return Err(e);
            },
        }
    }
    proof {
        assert(all.skip(i as int) == Seq::<Seq<char>>::empty());
        assert(tag_views(tags@) + seq![] == tag_views(tags@));
    }
    Ok(tags)
}

/// A line does not start with `p` when they differ at a place within both.
proof fn lemma_differs_at(line: Seq<char>, p: Seq<char>, k: int)
    requires
        0 <= k < p.len(),
        k < line.len(),
        line[k] != p[k],
    ensures
        !has_prefix(line, p),
{
    if has_prefix(line, p) {
        assert(line.take(p.len() as int)[k] == line[k]);
    }
}

/// The playlist type line and its tag: a text of the one line
/// `#EXT-X-PLAYLIST-TYPE:` and a value gives the one tag of the type that
/// the value names in any letter case: `EVENT` an event playlist, `VOD` an
/// on-demand one; any other value is refused as an invalid playlist type.
pub proof fn law_playlist_type_line(x: Seq<char>)
    requires
        forall|i: int| 0 <= i < x.len() ==> x[i] != '\n',
    ensures
        uppercase(x) == "EVENT"@ ==> tags_of_text("#EXT-X-PLAYLIST-TYPE:"@ + x) == Ok::<_, Seq<char>>(
            seq![TagView::ExtXPlaylistType(PlaylistType::Event)],
        ),
        uppercase(x) == "VOD"@ ==> tags_of_text("#EXT-X-PLAYLIST-TYPE:"@ + x) == Ok::<_, Seq<char>>(
            seq![TagView::ExtXPlaylistType(PlaylistType::Vod)],
        ),
        uppercase(x) != "EVENT"@ && uppercase(x) != "VOD"@ ==> tags_of_text(
            "#EXT-X-PLAYLIST-TYPE:"@ + x,
        ) == Err::<Seq<TagView>, _>("invalid playlist type"@),
{
    let pre = "#EXT-X-PLAYLIST-TYPE:"@;
    reveal_strlit("#EXT-X-PLAYLIST-TYPE:");
    let line = pre + x;
    assert(pre.len() == 21 && pre[7] == 'P');
    assert(line[7] == pre[7]);
    // one line
    assert forall|i: int| 0 <= i < line.len() implies line[i] != '\n' by {
        if i >= pre.len() {
            assert(line[i] == x[i - pre.len()]);
        }
    }
    lemma_char_pos(line, '\n');
    assert(text_lines(line) == seq![line]);
    // no tag tried before it matches
    reveal_strlit("#EXTM3U");
    assert(line != "#EXTM3U"@);
    reveal_strlit("#EXT-X-VERSION:");
    lemma_differs_at(line, "#EXT-X-VERSION:"@, 7);
    reveal_strlit("#EXT-X-INDEPENDENT-SEGMENTS");
    lemma_differs_at(line, "#EXT-X-INDEPENDENT-SEGMENTS"@, 7);
    reveal_strlit("#EXT-X-START:");
    lemma_differs_at(line, "#EXT-X-START:"@, 7);
    reveal_strlit("#EXT-X-DEFINE:");
    lemma_differs_at(line, "#EXT-X-DEFINE:"@, 7);
    reveal_strlit("#EXT-X-TARGETDURATION:");
    lemma_differs_at(line, "#EXT-X-TARGETDURATION:"@, 7);
    reveal_strlit("#EXT-X-MEDIA-SEQUENCE:");
    lemma_differs_at(line, "#EXT-X-MEDIA-SEQUENCE:"@, 7);
    reveal_strlit("#EXT-X-DISCONTINUITY-SEQUENCE:");
    lemma_differs_at(line, "#EXT-X-DISCONTINUITY-SEQUENCE:"@, 7);
    reveal_strlit("#EXT-X-ENDLIST");
    lemma_differs_at(line, "#EXT-X-ENDLIST"@, 7);
    // its own tag
    assert(line.take(pre.len() as int) =~= pre);
    assert(has_prefix(line, pre));
    assert(tail(line, pre) =~= x);
    let lines = seq![line];
    assert(lines.skip(1) =~= Seq::<Seq<char>>::empty());
    assert(tags_of_lines(Seq::<Seq<char>>::empty()) == Ok::<_, Seq<char>>(Seq::<TagView>::empty()));
    if uppercase(x) == "EVENT"@ {
        assert(line_tag(line, None) == Ok::<_, Seq<char>>(
            (TagView::ExtXPlaylistType(PlaylistType::Event), false),
        ));
        assert(seq![TagView::ExtXPlaylistType(PlaylistType::Event)] + Seq::<TagView>::empty()
            =~= seq![TagView::ExtXPlaylistType(PlaylistType::Event)]);
    }
    if uppercase(x) == "VOD"@ {
        reveal_strlit("EVENT");
        reveal_strlit("VOD");
        assert("VOD"@.len() == 3 && "EVENT"@.len() == 5);
        assert(line_tag(line, None) == Ok::<_, Seq<char>>(
            (TagView::ExtXPlaylistType(PlaylistType::Vod), false),
        ));
        assert(seq![TagView::ExtXPlaylistType(PlaylistType::Vod)] + Seq::<TagView>::empty()
            =~= seq![TagView::ExtXPlaylistType(PlaylistType::Vod)]);
    }
}

/// Whether a tag belongs in a master playlist.
pub open spec fn is_master_view(t: TagView) -> bool {
    match t {
        TagView::ExtM3u | TagView::ExtXVersion(_) | TagView::ExtXIndependentSegments
        | TagView::ExtXStart(_) | TagView::ExtXDefine(_) | TagView::ExtXMedia(_)
        | TagView::ExtXStreamInf(_, _) | TagView::ExtXIFrameStreamInf(_) | TagView::ExtXSessionData(_)
        | TagView::ExtXSessionKey(_) | TagView::ExtXContentSteering(_) | TagView::ExtXScufGroup(_)
        | TagView::Unknown(_) => true,
        _ => false,
    }
}

impl Tag {
    /// Whether this tag belongs in a master playlist.
    pub fn is_master_tag(&self) -> (r: bool)
        ensures
            r == is_master_view(self@),
    {
        match self {
            Tag::ExtM3u | Tag::ExtXVersion(_) | Tag::ExtXIndependentSegments | Tag::ExtXStart(_)
            | Tag::ExtXDefine(_) | Tag::ExtXMedia(_) | Tag::ExtXStreamInf(_, _)
            | Tag::ExtXIFrameStreamInf(_) | Tag::ExtXSessionData(_) | Tag::ExtXSessionKey(_)
            | Tag::ExtXContentSteering(_) | Tag::ExtXScufGroup(_) | Tag::Unknown(_) => true,
            _ => false,
        }
    }
}

} // verus!
