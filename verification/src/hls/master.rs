//! Master playlists: variant streams, alternative media groups and Scuffle groups.
//!
//! Frame rates are kept as the float texts written in the playlist.

use vstd::prelude::*;

use crate::hls::attributes::Attributes;
use crate::hls::tags::{tag_views, Tag, TagView};
use crate::text::{
    after_sep, after_sep_of, chars_eq, chars_of, first_field, first_field_of, i32_text_value,
    is_float, is_float_text, lemma_skip_step, parse_i32, parse_u32, unsigned_in_range,
};
use crate::hls::media::opt_str;

verus! {

/// The priority of a Scuffle group.
#[derive(Debug, Clone, Copy, PartialEq, Eq, Structural)]
pub struct ScufGroup {
    pub priority: i32,
}

/// The type of an alternative rendition.
#[derive(Debug, Clone, Copy, PartialEq, Eq, Structural)]
pub enum MediaType {
    Audio,
    Video,
    Subtitles,
    ClosedCaptions,
}

/// An alternative rendition (`#EXT-X-MEDIA`).
#[derive(Debug, Clone)]
pub struct Media {
    pub media_type: MediaType,
    pub uri: String,
    pub name: String,
    pub group_id: String,
    pub codecs: String,
    pub bandwidth: u32,
    pub autoselect: bool,
    pub default: bool,
    pub forced: bool,
    pub resolution: Option<(u32, u32)>,
    pub frame_rate: Option<String>,
}

/// A variant stream (`#EXT-X-STREAM-INF`).
#[derive(Debug, Clone)]
pub struct Stream {
    pub uri: String,
    pub bandwidth: u32,
    pub name: String,
    pub group: String,
    pub codecs: String,
    pub resolution: Option<(u32, u32)>,
    pub frame_rate: Option<String>,
    pub audio: Option<String>,
    pub video: Option<String>,
}

/// A master playlist. Media groups and Scuffle groups are listed in the
/// order in which their ids first appear; each id appears once.
#[derive(Debug, Clone)]
pub struct MasterPlaylist {
    pub streams: Vec<Stream>,
    pub groups: Vec<(String, Vec<Media>)>,
    pub scuf_groups: Vec<(String, ScufGroup)>,
}

/// What an alternative rendition holds.
pub struct MediaView {
    pub media_type: MediaType,
    pub uri: Seq<char>,
    pub name: Seq<char>,
    pub group_id: Seq<char>,
    pub codecs: Seq<char>,
    pub bandwidth: u32,
    pub autoselect: bool,
    pub default: bool,
    pub forced: bool,
    pub resolution: Option<(u32, u32)>,
    pub frame_rate: Option<Seq<char>>,
}

/// What a variant stream holds.
pub struct StreamView {
    pub uri: Seq<char>,
    pub bandwidth: u32,
    pub name: Seq<char>,
    pub group: Seq<char>,
    pub codecs: Seq<char>,
    pub resolution: Option<(u32, u32)>,
    pub frame_rate: Option<Seq<char>>,
    pub audio: Option<Seq<char>>,
    pub video: Option<Seq<char>>,
}

/// What a master playlist holds.
pub struct MasterPlaylistView {
    pub streams: Seq<StreamView>,
    pub groups: Seq<(Seq<char>, Seq<MediaView>)>,
    pub scuf_groups: Seq<(Seq<char>, ScufGroup)>,
}

impl View for Media {
    type V = MediaView;

    open spec fn view(&self) -> MediaView {
        MediaView {
            media_type: self.media_type,
            uri: self.uri@,
            name: self.name@,
            group_id: self.group_id@,
            codecs: self.codecs@,
            bandwidth: self.bandwidth,
            autoselect: self.autoselect,
            default: self.default,
            forced: self.forced,
            resolution: self.resolution,
            frame_rate: opt_str(self.frame_rate),
        }
    }
}

impl View for Stream {
    type V = StreamView;

    open spec fn view(&self) -> StreamView {
        StreamView {
            uri: self.uri@,
            bandwidth: self.bandwidth,
            name: self.name@,
            group: self.group@,
            codecs: self.codecs@,
            resolution: self.resolution,
            frame_rate: opt_str(self.frame_rate),
            audio: opt_str(self.audio),
            video: opt_str(self.video),
        }
    }
}

/// The views of a sequence of media.
pub open spec fn media_views(s: Seq<Media>) -> Seq<MediaView> {
    s.map_values(|x: Media| x@)
}

/// The views of a sequence of streams.
pub open spec fn stream_views(s: Seq<Stream>) -> Seq<StreamView> {
    s.map_values(|x: Stream| x@)
}

/// The views of media groups.
pub open spec fn group_views(s: Seq<(String, Vec<Media>)>) -> Seq<(Seq<char>, Seq<MediaView>)> {
    s.map_values(|x: (String, Vec<Media>)| (x.0@, media_views(x.1@)))
}

/// The views of Scuffle groups.
pub open spec fn scuf_views(s: Seq<(String, ScufGroup)>) -> Seq<(Seq<char>, ScufGroup)> {
    s.map_values(|x: (String, ScufGroup)| (x.0@, x.1))
}

impl View for MasterPlaylist {
    type V = MasterPlaylistView;

    open spec fn view(&self) -> MasterPlaylistView {
        MasterPlaylistView {
            streams: stream_views(self.streams@),
            groups: group_views(self.groups@),
            scuf_groups: scuf_views(self.scuf_groups@),
        }
    }
}

/// An unsigned attribute, or 0 when it is absent or no `u32`.
pub open spec fn u32_or_zero(o: Option<Seq<char>>) -> u32 {
    match o {
        Some(s) => match unsigned_in_range(s, u32::MAX as nat) {
            Some(v) => v as u32,
            None => 0,
        },
        None => 0,
    }
}

/// A `WIDTHxHEIGHT` resolution; none when either side is missing, zero or no number.
pub open spec fn resolution_of(s: Seq<char>) -> Option<(u32, u32)> {
    let w = u32_or_zero(Some(first_field(s, 'x')));
    let h = match after_sep(s, 'x') {
        Some(r) => u32_or_zero(Some(first_field(r, 'x'))),
        None => 0,
    };
    if w == 0 || h == 0 {
        None
    } else {
        Some((w, h))
    }
}

/// An attribute's value, if set.
pub open spec fn attr(m: Map<Seq<char>, Seq<char>>, k: Seq<char>) -> Option<Seq<char>> {
    if m.contains_key(k) {
        Some(m[k])
    } else {
        None
    }
}

/// An attribute's value, or the empty text.
pub open spec fn attr_or_empty(m: Map<Seq<char>, Seq<char>>, k: Seq<char>) -> Seq<char> {
    if m.contains_key(k) {
        m[k]
    } else {
        Seq::empty()
    }
}

/// The resolution attribute.
pub open spec fn resolution_attr(m: Map<Seq<char>, Seq<char>>) -> Option<(u32, u32)> {
    if m.contains_key("RESOLUTION"@) {
        resolution_of(m["RESOLUTION"@])
    } else {
        None
    }
}

/// The frame rate attribute's text, when it is a float.
pub open spec fn frame_rate_attr(m: Map<Seq<char>, Seq<char>>) -> Option<Seq<char>> {
    if m.contains_key("FRAME-RATE"@) && is_float_text(m["FRAME-RATE"@]) {
        Some(m["FRAME-RATE"@])
    } else {
        None
    }
}

/// The stream of a `#EXT-X-STREAM-INF`; none without a name, a group or codecs.
pub open spec fn stream_of(m: Map<Seq<char>, Seq<char>>, uri: Seq<char>) -> Option<StreamView> {
    if m.contains_key("NAME"@) && m.contains_key("GROUP"@) && m.contains_key("CODECS"@) {
        Some(
            StreamView {
                uri: uri,
                bandwidth: u32_or_zero(attr(m, "BANDWIDTH"@)),
                name: m["NAME"@],
                group: m["GROUP"@],
                codecs: m["CODECS"@],
                resolution: resolution_attr(m),
                frame_rate: frame_rate_attr(m),
                audio: attr(m, "AUDIO"@),
                video: attr(m, "VIDEO"@),
            },
        )
    } else {
        None
    }
}

/// The streams of the tags, in order.
pub open spec fn streams_of(t: Seq<TagView>) -> Seq<StreamView>
    decreases t.len(),
{
    if t.len() == 0 {
        seq![]
    } else {
        let rest = streams_of(t.drop_first());
        match t[0] {
            TagView::ExtXStreamInf(m, uri) => match stream_of(m, uri) {
                Some(s) => seq![s] + rest,
                None => rest,
            },
            _ => rest,
        }
    }
}

/// The media type that a `TYPE` attribute names.
pub open spec fn media_type_of(m: Map<Seq<char>, Seq<char>>) -> Option<MediaType> {
    if !m.contains_key("TYPE"@) {
        None
    } else if m["TYPE"@] == "AUDIO"@ {
        Some(MediaType::Audio)
    } else if m["TYPE"@] == "VIDEO"@ {
        Some(MediaType::Video)
    } else if m["TYPE"@] == "SUBTITLES"@ {
        Some(MediaType::Subtitles)
    } else if m["TYPE"@] == "CLOSED-CAPTIONS"@ {
        Some(MediaType::ClosedCaptions)
    } else {
        None
    }
}

/// Whether an attribute is exactly `YES`.
pub open spec fn is_yes(m: Map<Seq<char>, Seq<char>>, k: Seq<char>) -> bool {
    m.contains_key(k) && m[k] == "YES"@
}

/// The rendition of a `#EXT-X-MEDIA`; none when its type is unknown.
pub open spec fn media_of(m: Map<Seq<char>, Seq<char>>) -> Option<MediaView> {
    match media_type_of(m) {
        None => None,
        Some(ty) => Some(
            MediaView {
                media_type: ty,
                uri: attr_or_empty(m, "URI"@),
                name: attr_or_empty(m, "NAME"@),
                group_id: attr_or_empty(m, "GROUP-ID"@),
                codecs: attr_or_empty(m, "CODECS"@),
                bandwidth: u32_or_zero(attr(m, "BANDWIDTH"@)),
                autoselect: is_yes(m, "AUTOSELECT"@),
                default: is_yes(m, "DEFAULT"@),
                forced: is_yes(m, "FORCED"@),
                resolution: resolution_attr(m),
                frame_rate: frame_rate_attr(m),
            },
        ),
    }
}

/// The position of the first entry with key `k`, or the length when there is none.
pub open spec fn key_index<V>(es: Seq<(Seq<char>, V)>, k: Seq<char>) -> nat
    decreases es.len(),
{
    if es.len() == 0 {
        0
    } else if es[0].0 == k {
        0
    } else {
        1 + key_index(es.drop_first(), k)
    }
}

/// `key_index` is the first position with key `k`, or the length.
proof fn lemma_key_index<V>(es: Seq<(Seq<char>, V)>, k: Seq<char>, p: int)
    requires
        0 <= p <= es.len(),
        forall|j: int| 0 <= j < p ==> (#[trigger] es[j]).0 != k,
        p == es.len() || es[p].0 == k,
    ensures
        key_index(es, k) == p,
    decreases es.len(),
{
    if es.len() > 0 && p > 0 {
        let d = es.drop_first();
        assert forall|j: int| 0 <= j < p - 1 implies (#[trigger] d[j]).0 != k by {
            assert(d[j] == es[j + 1]);
        }
        if p < es.len() {
            assert(d[p - 1] == es[p]);
        }
        lemma_key_index(d, k, p - 1);
    }
}

/// The position of the entry with key `k` in exec groups, as `key_index` gives it.
fn find_key<V, W>(es: &Vec<(String, V)>, k: &String, Ghost(view): Ghost<Seq<(Seq<char>, W)>>) -> (r: usize)
    requires
        view.len() == es.len(),
        forall|j: int| 0 <= j < es.len() ==> (#[trigger] view[j]).0 == es@[j].0@,
    ensures
        r as nat == key_index(view, k@),
{
    let mut i: usize = 0;
    while i < es.len()
        invariant
            i <= es.len() == view.len(),
            forall|j: int| 0 <= j < es.len() ==> (#[trigger] view[j]).0 == es@[j].0@,
            forall|j: int| 0 <= j < i ==> (#[trigger] view[j]).0 != k@,
        decreases es.len() - i,
    {
        if es[i].0 == *k {
            proof {
                lemma_key_index(view, k@, i as int);
            }
            return i;
        }
        i = i + 1;
    }
    proof {
        lemma_key_index(view, k@, i as int);
    }
    i
}

/// Adds a rendition to its group, starting the group when it is new.
pub open spec fn add_media(
    groups: Seq<(Seq<char>, Seq<MediaView>)>,
    m: MediaView,
) -> Seq<(Seq<char>, Seq<MediaView>)> {
    let j = key_index(groups, m.group_id);
    if j < groups.len() {
        groups.update(j as int, (groups[j as int].0, groups[j as int].1.push(m)))
    } else {
        groups.push((m.group_id, seq![m]))
    }
}

/// The media groups after scanning the tags, starting from `groups`.
pub open spec fn groups_from(t: Seq<TagView>, groups: Seq<(Seq<char>, Seq<MediaView>)>) -> Seq<
    (Seq<char>, Seq<MediaView>),
>
    decreases t.len(),
{
    if t.len() == 0 {
        groups
    } else {
        let next = match t[0] {
            TagView::ExtXMedia(m) => match media_of(m) {
                Some(md) => add_media(groups, md),
                None => groups,
            },
            _ => groups,
        };
        groups_from(t.drop_first(), next)
    }
}

/// The Scuffle group of a `#EXT-X-SCUF-GROUP`: its group id and priority.
pub open spec fn scuf_of(m: Map<Seq<char>, Seq<char>>) -> (Seq<char>, ScufGroup) {
    (
        attr_or_empty(m, "GROUP"@),
        ScufGroup {
            priority: if m.contains_key("PRIORITY"@) {
                match i32_text_value(m["PRIORITY"@]) {
                    Some(v) => v as i32,
                    None => 0,
                }
            } else {
                0
            },
        },
    )
}

/// Sets a Scuffle group; a later one with the same id replaces the earlier.
pub open spec fn set_scuf(
    groups: Seq<(Seq<char>, ScufGroup)>,
    g: (Seq<char>, ScufGroup),
) -> Seq<(Seq<char>, ScufGroup)> {
    let j = key_index(groups, g.0);
    if j < groups.len() {
        groups.update(j as int, g)
    } else {
        groups.push(g)
    }
}

/// The Scuffle groups after scanning the tags, starting from `groups`.
pub open spec fn scufs_from(t: Seq<TagView>, groups: Seq<(Seq<char>, ScufGroup)>) -> Seq<
    (Seq<char>, ScufGroup),
>
    decreases t.len(),
{
    if t.len() == 0 {
        groups
    } else {
        let next = match t[0] {
            TagView::ExtXScufGroup(m) => set_scuf(groups, scuf_of(m)),
            _ => groups,
        };
        scufs_from(t.drop_first(), next)
    }
}

/// Whether no two entries share a key.
pub open spec fn keys_distinct<V>(es: Seq<(Seq<char>, V)>) -> bool {
    forall|i: int, j: int| 0 <= i < j < es.len() ==> (#[trigger] es[i]).0 != (#[trigger] es[j]).0
}

/// Whether every rendition sits in the group named by its group id.
pub open spec fn grouped_by_id(groups: Seq<(Seq<char>, Seq<MediaView>)>) -> bool {
    forall|i: int, j: int|
        0 <= i < groups.len() && 0 <= j < groups[i].1.len() ==> (#[trigger] groups[i].1[j]).group_id
            == groups[i].0
}

/// `key_index` names an entry with the key, or is the length when none has it.
proof fn lemma_key_index_found<V>(es: Seq<(Seq<char>, V)>, k: Seq<char>)
    ensures
        key_index(es, k) <= es.len(),
        key_index(es, k) < es.len() ==> es[key_index(es, k) as int].0 == k,
        key_index(es, k) == es.len() ==> forall|j: int| 0 <= j < es.len() ==> (#[trigger] es[j]).0 != k,
    decreases es.len(),
{
    if es.len() > 0 && es[0].0 != k {
        let d = es.drop_first();
        lemma_key_index_found(d, k);
        if key_index(d, k) < d.len() {
            assert(es[key_index(es, k) as int] == d[key_index(d, k) as int]);
        } else {
            assert forall|j: int| 0 <= j < es.len() implies (#[trigger] es[j]).0 != k by {
                if j > 0 {
                    assert(es[j] == d[j - 1]);
                }
            }
        }
    }
}

/// Adding a rendition keeps the groups keyed by distinct ids, each holding
/// only its own renditions.
proof fn lemma_add_media_keyed(groups: Seq<(Seq<char>, Seq<MediaView>)>, m: MediaView)
    requires
        keys_distinct(groups),
        grouped_by_id(groups),
    ensures
        keys_distinct(add_media(groups, m)),
        grouped_by_id(add_media(groups, m)),
{
    lemma_key_index_found(groups, m.group_id);
    let g = add_media(groups, m);
    let ki = key_index(groups, m.group_id) as int;
    if ki < groups.len() {
        assert forall|i: int, j: int| 0 <= i < g.len() && 0 <= j < g[i].1.len() implies (
        #[trigger] g[i].1[j]).group_id == g[i].0 by {
            if i == ki {
                if j < groups[i].1.len() {
                    assert(g[i].1[j] == groups[i].1[j]);
                }
            }
        }
    } else {
        assert forall|i: int, j: int| 0 <= i < j < g.len() implies (#[trigger] g[i]).0 != (
        #[trigger] g[j]).0 by {
            if j == groups.len() {
                assert(groups[i].0 != m.group_id);
            }
        }
        assert forall|i: int, j: int| 0 <= i < g.len() && 0 <= j < g[i].1.len() implies (
        #[trigger] g[i].1[j]).group_id == g[i].0 by {
            if i < groups.len() {
                assert(g[i] == groups[i]);
            }
        }
    }
}

/// Scanning tags keeps the groups keyed by distinct ids, each holding only
/// its own renditions.
proof fn lemma_groups_from_keyed(t: Seq<TagView>, groups: Seq<(Seq<char>, Seq<MediaView>)>)
    requires
        keys_distinct(groups),
        grouped_by_id(groups),
    ensures
        keys_distinct(groups_from(t, groups)),
        grouped_by_id(groups_from(t, groups)),
    decreases t.len(),
{
    if t.len() > 0 {
        let next = match t[0] {
            TagView::ExtXMedia(m) => match media_of(m) {
                Some(md) => add_media(groups, md),
                None => groups,
            },
            _ => groups,
        };
        match t[0] {
            TagView::ExtXMedia(m) => match media_of(m) {
                Some(md) => lemma_add_media_keyed(groups, md),
                None => {},
            },
            _ => {},
        }
        lemma_groups_from_keyed(t.drop_first(), next);
    }
}

/// Scanning tags keeps the Scuffle groups keyed by distinct ids.
proof fn lemma_scufs_from_keyed(t: Seq<TagView>, groups: Seq<(Seq<char>, ScufGroup)>)
    requires
        keys_distinct(groups),
    ensures
        keys_distinct(scufs_from(t, groups)),
    decreases t.len(),
{
    if t.len() > 0 {
        let next = match t[0] {
            TagView::ExtXScufGroup(m) => set_scuf(groups, scuf_of(m)),
            _ => groups,
        };
        match t[0] {
            TagView::ExtXScufGroup(m) => {
                let g = scuf_of(m);
                lemma_key_index_found(groups, g.0);
                let n = set_scuf(groups, g);
                if key_index(groups, g.0) == groups.len() {
                    assert forall|i: int, j: int| 0 <= i < j < n.len() implies (#[trigger] n[i]).0 != (
                    #[trigger] n[j]).0 by {
                        if j == groups.len() {
                            assert(groups[i].0 != g.0);
                        }
                    }
                }
            },
            _ => {},
        }
        lemma_scufs_from_keyed(t.drop_first(), next);
    }
}

/// In a master playlist every media group id and every Scuffle group id
/// appears once, and each group holds exactly renditions with its id.
pub proof fn law_master_groups_keyed(t: Seq<TagView>)
    ensures
        keys_distinct(master_playlist_of(t).groups),
        grouped_by_id(master_playlist_of(t).groups),
        keys_distinct(master_playlist_of(t).scuf_groups),
{
    lemma_groups_from_keyed(t, seq![]);
    lemma_scufs_from_keyed(t, seq![]);
}

/// Whether a rendition's flags and names are those its attribute list
/// writes: `DEFAULT`, `AUTOSELECT` and `FORCED` are set exactly when the
/// attribute is `YES`, and the group id and name are the attributes' texts
/// (empty when absent).
pub open spec fn rendition_written_by(m: Map<Seq<char>, Seq<char>>, md: MediaView) -> bool {
    &&& md.default == (m.contains_key("DEFAULT"@) && m["DEFAULT"@] == "YES"@)
    &&& md.autoselect == (m.contains_key("AUTOSELECT"@) && m["AUTOSELECT"@] == "YES"@)
    &&& md.forced == (m.contains_key("FORCED"@) && m["FORCED"@] == "YES"@)
    &&& md.group_id == (if m.contains_key("GROUP-ID"@) { m["GROUP-ID"@] } else { Seq::empty() })
    &&& md.name == (if m.contains_key("NAME"@) { m["NAME"@] } else { Seq::empty() })
}

/// Whether the tag is a `#EXT-X-MEDIA` that writes the rendition `md`.
pub open spec fn tag_writes(tag: TagView, md: MediaView) -> bool {
    match tag {
        TagView::ExtXMedia(m) => rendition_written_by(m, md),
        _ => false,
    }
}

/// Whether some `#EXT-X-MEDIA` tag of `t` writes the rendition `md`.
pub open spec fn written_by_some_tag(t: Seq<TagView>, md: MediaView) -> bool {
    exists|k: int| 0 <= k < t.len() && tag_writes(#[trigger] t[k], md)
}

/// Whether `md` is one of the renditions in `groups`.
pub open spec fn in_groups(groups: Seq<(Seq<char>, Seq<MediaView>)>, md: MediaView) -> bool {
    exists|i: int, j: int|
        0 <= i < groups.len() && 0 <= j < groups[i].1.len() && (#[trigger] groups[i].1[j]) == md
}

/// A rendition of the groups after adding `x` was there before or is `x`.
proof fn lemma_add_media_members(groups: Seq<(Seq<char>, Seq<MediaView>)>, x: MediaView, md: MediaView)
    requires
        in_groups(add_media(groups, x), md),
    ensures
        in_groups(groups, md) || md == x,
{
    let g = add_media(groups, x);
    let (i, j) = choose|i: int, j: int|
        0 <= i < g.len() && 0 <= j < g[i].1.len() && (#[trigger] g[i].1[j]) == md;
    let ki = key_index(groups, x.group_id) as int;
    if ki < groups.len() {
        if i == ki {
            if j < groups[i].1.len() {
                assert(g[i].1[j] == groups[i].1[j]);
            }
        } else {
            assert(g[i] == groups[i]);
        }
    } else {
        if i < groups.len() {
            assert(g[i] == groups[i]);
        }
    }
}

/// Every rendition that scanning tags adds is written by one of those tags.
proof fn lemma_groups_from_written(
    t: Seq<TagView>,
    groups: Seq<(Seq<char>, Seq<MediaView>)>,
    md: MediaView,
)
    requires
        in_groups(groups_from(t, groups), md),
    ensures
        in_groups(groups, md) || written_by_some_tag(t, md),
    decreases t.len(),
{
    if t.len() > 0 {
        let next = match t[0] {
            TagView::ExtXMedia(m) => match media_of(m) {
                Some(x) => add_media(groups, x),
                None => groups,
            },
            _ => groups,
        };
        lemma_groups_from_written(t.drop_first(), next, md);
        if written_by_some_tag(t.drop_first(), md) {
            let k = choose|k: int| 0 <= k < t.drop_first().len() && tag_writes(#[trigger] t.drop_first()[k], md);
            assert(t[k + 1] == t.drop_first()[k]);
        } else {
            match t[0] {
                TagView::ExtXMedia(m) => match media_of(m) {
                    Some(x) => {
                        lemma_add_media_members(groups, x, md);
                        if md == x {
                            assert(tag_writes(t[0], md));
                        }
                    },
                    None => {},
                },
                _ => {},
            }
        }
    }
}

/// Every rendition of a master playlist is written by one of its
/// `#EXT-X-MEDIA` tags: its `DEFAULT`, `AUTOSELECT` and `FORCED` flags are
/// set exactly when that tag's attribute is `YES`, and its group id and
/// name are that tag's attributes.
pub proof fn law_renditions_follow_their_tags(t: Seq<TagView>)
    ensures
        forall|i: int, j: int|
            0 <= i < master_playlist_of(t).groups.len() && 0 <= j
                < master_playlist_of(t).groups[i].1.len() ==> written_by_some_tag(
                t,
                #[trigger] master_playlist_of(t).groups[i].1[j],
            ),
{
    assert forall|i: int, j: int|
        0 <= i < master_playlist_of(t).groups.len() && 0 <= j
            < master_playlist_of(t).groups[i].1.len() implies written_by_some_tag(
        t,
        #[trigger] master_playlist_of(t).groups[i].1[j],
    ) by {
        let md = master_playlist_of(t).groups[i].1[j];
        assert(in_groups(groups_from(t, seq![]), md));
        lemma_groups_from_written(t, seq![], md);
    }
}

/// The master playlist that the tags describe.
pub open spec fn master_playlist_of(t: Seq<TagView>) -> MasterPlaylistView {
    MasterPlaylistView {
        streams: streams_of(t),
        groups: groups_from(t, seq![]),
        scuf_groups: scufs_from(t, seq![]),
    }
}

/// An unsigned attribute, or 0 when it is absent or no `u32`.
fn u32_attr_or_zero(a: &Attributes, key: &str) -> (r: u32)
    ensures
        r == u32_or_zero(attr(a@, key@)),
{
    match a.get(key) {
        Some(v) => match parse_u32(&chars_of(v.as_str())) {
            Some(x) => x,
            None => 0,
        },
        None => 0,
    }
}

/// The resolution a `WIDTHxHEIGHT` text gives.
fn resolution_from(s: &Vec<char>) -> (r: Option<(u32, u32)>)
    ensures
        r == resolution_of(s@),
{
    let w = match parse_u32(&first_field_of(s, 'x')) {
        Some(x) => x,
        None => 0,
    };
    let h = match after_sep_of(s, 'x') {
        Some(rest) => match parse_u32(&first_field_of(&rest, 'x')) {
            Some(x) => x,
            None => 0,
        },
        None => 0,
    };
    if w == 0 || h == 0 {
        None
    } else {
        Some((w, h))
    }
}

/// The resolution attribute.
fn resolution_attr_of(a: &Attributes) -> (r: Option<(u32, u32)>)
    ensures
        r == resolution_attr(a@),
{
    match a.get("RESOLUTION") {
        Some(v) => resolution_from(&chars_of(v.as_str())),
        None => None,
    }
}

/// The frame rate attribute's text, when it is a float.
fn frame_rate_attr_of(a: &Attributes) -> (r: Option<String>)
    ensures
        opt_str(r) == frame_rate_attr(a@),
{
    match a.get("FRAME-RATE") {
        Some(v) => if is_float(&chars_of(v.as_str())) {
            Some(v.clone())
        } else {
            None
        },
        None => None,
    }
}

/// A copy of an attribute's value, if set.
fn attr_of(a: &Attributes, key: &str) -> (r: Option<String>)
    ensures
        opt_str(r) == attr(a@, key@),
{
    match a.get(key) {
        Some(v) => Some(v.clone()),
        None => None,
    }
}

/// A copy of an attribute's value, or the empty text.
fn attr_or_empty_of(a: &Attributes, key: &str) -> (r: String)
    ensures
        r@ == attr_or_empty(a@, key@),
{
    match a.get(key) {
        Some(v) => v.clone(),
        None => String::new(),
    }
}

/// Whether an attribute is exactly `YES`.
fn yes_of(a: &Attributes, key: &str) -> (r: bool)
    ensures
        r == is_yes(a@, key@),
{
    match a.get(key) {
        Some(v) => chars_eq(&chars_of(v.as_str()), "YES"),
        None => false,
    }
}

/// The stream of a `#EXT-X-STREAM-INF`.
fn stream_from(a: &Attributes, uri: &String) -> (r: Option<Stream>)
    ensures
        match r {
            Some(s) => stream_of(a@, uri@) == Some(s@),
            None => stream_of(a@, uri@) is None,
        },
{
    let name = match a.get("NAME") {
        Some(v) => v.clone(),
        None => {
            return None;
        },
    };
    let group = match a.get("GROUP") {
        Some(v) => v.clone(),
        None => {
            return None;
        },
    };
    let codecs = match a.get("CODECS") {
        Some(v) => v.clone(),
        None => {
            return None;
        },
    };
    Some(
        Stream {
            uri: uri.clone(),
            bandwidth: u32_attr_or_zero(a, "BANDWIDTH"),
            name,
            group,
            codecs,
            resolution: resolution_attr_of(a),
            frame_rate: frame_rate_attr_of(a),
            audio: attr_of(a, "AUDIO"),
            video: attr_of(a, "VIDEO"),
        },
    )
}

/// The media type that a `TYPE` attribute names.
fn media_type_from(a: &Attributes) -> (r: Option<MediaType>)
    ensures
        r == media_type_of(a@),
{
    match a.get("TYPE") {
        Some(v) => {
            let c = chars_of(v.as_str());
            if chars_eq(&c, "AUDIO") {
                Some(MediaType::Audio)
            } else if chars_eq(&c, "VIDEO") {
                Some(MediaType::Video)
            } else if chars_eq(&c, "SUBTITLES") {
                Some(MediaType::Subtitles)
            } else if chars_eq(&c, "CLOSED-CAPTIONS") {
                Some(MediaType::ClosedCaptions)
            } else {
                None
            }
        },
        None => None,
    }
}

/// The rendition of a `#EXT-X-MEDIA`.
fn media_from(a: &Attributes) -> (r: Option<Media>)
    ensures
        match r {
            Some(m) => media_of(a@) == Some(m@),
            None => media_of(a@) is None,
        },
{
    let media_type = match media_type_from(a) {
        Some(t) => t,
        None => {
            return None;
        },
    };
    Some(
        Media {
            media_type,
            uri: attr_or_empty_of(a, "URI"),
            name: attr_or_empty_of(a, "NAME"),
            group_id: attr_or_empty_of(a, "GROUP-ID"),
            codecs: attr_or_empty_of(a, "CODECS"),
            bandwidth: u32_attr_or_zero(a, "BANDWIDTH"),
            autoselect: yes_of(a, "AUTOSELECT"),
            default: yes_of(a, "DEFAULT"),
            forced: yes_of(a, "FORCED"),
            resolution: resolution_attr_of(a),
            frame_rate: frame_rate_attr_of(a),
        },
    )
}

/// The Scuffle group of a `#EXT-X-SCUF-GROUP`.
fn scuf_from(a: &Attributes) -> (r: (String, ScufGroup))
    ensures
        (r.0@, r.1) == scuf_of(a@),
{
    let priority = match a.get("PRIORITY") {
        Some(v) => match parse_i32(&chars_of(v.as_str())) {
            Some(p) => p,
            None => 0,
        },
        None => 0,
    };
    (attr_or_empty_of(a, "GROUP"), ScufGroup { priority })
}

impl MasterPlaylist {
    /// Builds a master playlist from its tags: the streams with a name, a
    /// group and codecs; the renditions of a known type, grouped by group id;
    /// and the Scuffle groups, the last one of each id winning.
    pub fn from_tags(tags: Vec<Tag>) -> (r: Result<MasterPlaylist, String>)
        ensures
            r matches Ok(p) && p@ == master_playlist_of(tag_views(tags@)),
    {
        let ghost tv = tag_views(tags@);
        let mut streams: Vec<Stream> = Vec::new();
        let mut groups: Vec<(String, Vec<Media>)> = Vec::new();
        let mut scuf_groups: Vec<(String, ScufGroup)> = Vec::new();
        let mut i: usize = 0;
        assert(tv.skip(0) == tv);
        assert(stream_views(streams@) == Seq::<StreamView>::empty());
        assert(group_views(groups@) == Seq::<(Seq<char>, Seq<MediaView>)>::empty());
        assert(scuf_views(scuf_groups@) == Seq::<(Seq<char>, ScufGroup)>::empty());
        while i < tags.len()
            invariant
                i <= tags.len() == tv.len(),
                tv == tag_views(tags@),
                streams_of(tv) == stream_views(streams@) + streams_of(tv.skip(i as int)),
                groups_from(tv, seq![]) == groups_from(tv.skip(i as int), group_views(groups@)),
                scufs_from(tv, seq![]) == scufs_from(tv.skip(i as int), scuf_views(scuf_groups@)),
            decreases tags.len() - i,
        {
            proof {
                lemma_skip_step(tv, i as int);
            }
            let ghost gv = group_views(groups@);
            let ghost sv = scuf_views(scuf_groups@);
            let ghost stv = stream_views(streams@);
            match &tags[i] {
                Tag::ExtXStreamInf(a, uri) => {
                    match stream_from(a, uri) {
                        Some(s) => {
                            streams.push(s);
                            proof {
                                assert(stream_views(streams@) == stv + seq![s@]);
                                assert(stv + (seq![s@] + streams_of(tv.skip(i + 1))) == (stv
                                    + seq![s@]) + streams_of(tv.skip(i + 1)));
                            }
                        },
                        None => {},
                    }
                },
                Tag::ExtXMedia(a) => {
                    match media_from(a) {
                        Some(md) => {
                            let j = find_key::<Vec<Media>, Seq<MediaView>>(&groups, &md.group_id, Ghost(gv));
                            if j < groups.len() {
                                let (g, mut v) = groups.remove(j);
                                let ghost mv = md@;
                                v.push(md);
                                groups.insert(j, (g, v));
                                proof {
                                    assert(media_views(v@) == gv[j as int].1.push(mv));
                                    assert(group_views(groups@) == gv.update(
                                        j as int,
                                        (gv[j as int].0, gv[j as int].1.push(mv)),
                                    ));
                                }
                            } else {
                                let gid = md.group_id.clone();
                                let ghost mv = md@;
                                let v = vec![md];
                                groups.push((gid, v));
                                proof {
                                    assert(media_views(v@) == seq![mv]);
                                    assert(group_views(groups@) == gv.push((mv.group_id, seq![mv])));
                                }
                            }
                        },
                        None => {},
                    }
                },
                Tag::ExtXScufGroup(a) => {
                    let g = scuf_from(a);
                    let j = find_key::<ScufGroup, ScufGroup>(&scuf_groups, &g.0, Ghost(sv));
                    let ghost gview = (g.0@, g.1);
                    if j < scuf_groups.len() {
                        scuf_groups.set(j, g);
                        proof {
                            assert(scuf_views(scuf_groups@) == sv.update(j as int, gview));
                        }
                    } else {
                        scuf_groups.push(g);
                        proof {
                            assert(scuf_views(scuf_groups@) == sv.push(gview));
                        }
                    }
                },
                _ => {},
            }
            i = i + 1;
        }
        proof {
            assert(tv.skip(i as int) == Seq::<TagView>::empty());
            assert(stream_views(streams@) + seq![] == stream_views(streams@));
        }
        Ok(MasterPlaylist { streams, groups, scuf_groups })
    }
}

} // verus!
