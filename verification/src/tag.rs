//! What a line of a manifest is: blank, a tag, a comment or a location; and
//! which of the known tags a tag line carries.

use vstd::prelude::*;
use crate::text::{find, find_char, range_is};

verus! {

/// The tags of a media playlist that this crate knows by name.
#[derive(Clone, Copy, Debug, PartialEq, Eq, Structural)]
pub enum Tag {
    M3u,
    Version,
    TargetDuration,
    MediaSequence,
    DiscontinuitySequence,
    EndList,
    IndependentSegments,
    IFramesOnly,
    PlaylistType,
    ProgramDateTime,
    Inf,
    ByteRange,
    InitMap,
    Start,
    /// Any other name that starts with `#EXT`.
    Unrecognized,
}

/// What a line of a manifest is.
#[derive(Clone, Copy, Debug, PartialEq, Eq, Structural)]
pub enum LineKind {
    Blank,
    Tag,
    Comment,
    Uri,
}

/// Length of `#EXT`, with which every tag starts.
pub const TAG_PREFIX_LEN: usize = 4;

pub open spec fn line_kind(line: Seq<char>) -> LineKind {
    if line.len() == 0 {
        LineKind::Blank
    } else if line.len() >= 4 && line.subrange(0, 4) == "#EXT"@ {
        LineKind::Tag
    } else if line[0] == '#' {
        LineKind::Comment
    } else {
        LineKind::Uri
    }
}

/// Where the name of the tag on a tag line ends: at its first colon behind
/// `#EXT`, or at the end of the line.
pub open spec fn tag_name_end(line: Seq<char>) -> int {
    find_char(line, ':', 4)
}

/// The tag that goes by the given name.
pub open spec fn tag_named(name: Seq<char>) -> Tag {
    if name == "#EXTM3U"@ {
        Tag::M3u
    } else if name == "#EXT-X-VERSION"@ {
        Tag::Version
    } else if name == "#EXT-X-TARGETDURATION"@ {
        Tag::TargetDuration
    } else if name == "#EXT-X-MEDIA-SEQUENCE"@ {
        Tag::MediaSequence
    } else if name == "#EXT-X-DISCONTINUITY-SEQUENCE"@ {
        Tag::DiscontinuitySequence
    } else if name == "#EXT-X-ENDLIST"@ {
        Tag::EndList
    } else if name == "#EXT-X-INDEPENDENT-SEGMENTS"@ {
        Tag::IndependentSegments
    } else if name == "#EXT-X-I-FRAMES-ONLY"@ {
        Tag::IFramesOnly
    } else if name == "#EXT-X-PLAYLIST-TYPE"@ {
        Tag::PlaylistType
    } else if name == "#EXT-X-PROGRAM-DATE-TIME"@ {
        Tag::ProgramDateTime
    } else if name == "#EXTINF"@ {
        Tag::Inf
    } else if name == "#EXT-X-BYTERANGE"@ {
        Tag::ByteRange
    } else if name == "#EXT-X-MAP"@ {
        Tag::InitMap
    } else if name == "#EXT-X-START"@ {
        Tag::Start
    } else {
        Tag::Unrecognized
    }
}

/// The tag on a tag line.
pub open spec fn tag_of(line: Seq<char>) -> Tag {
    tag_named(line.subrange(0, tag_name_end(line)))
}

/// Tells what kind of line `line` is.
pub fn classify_line(line: &[char]) -> (kind: LineKind)
    ensures
        kind == line_kind(line@),
{
    if line.len() == 0 {
        LineKind::Blank
    } else if line.len() >= TAG_PREFIX_LEN && range_is(line, 0, TAG_PREFIX_LEN, "#EXT") {
        LineKind::Tag
    } else if line[0] == '#' {
        LineKind::Comment
    } else {
        LineKind::Uri
    }
}

/// Names the tag on a tag line, and tells where its name ends.
pub fn classify_tag(line: &[char]) -> (out: (Tag, usize))
    requires
        line@.len() >= 4,
    ensures
        out.0 == tag_of(line@),
        out.1 == tag_name_end(line@),
        4 <= out.1 <= line@.len(),
{
    let end = find(line, ':', TAG_PREFIX_LEN);
    let tag = if range_is(line, 0, end, "#EXTM3U") {
        Tag::M3u
    } else if range_is(line, 0, end, "#EXT-X-VERSION") {
        Tag::Version
    } else if range_is(line, 0, end, "#EXT-X-TARGETDURATION") {
        Tag::TargetDuration
    } else if range_is(line, 0, end, "#EXT-X-MEDIA-SEQUENCE") {
        Tag::MediaSequence
    } else if range_is(line, 0, end, "#EXT-X-DISCONTINUITY-SEQUENCE") {
        Tag::DiscontinuitySequence
    } else if range_is(line, 0, end, "#EXT-X-ENDLIST") {
        Tag::EndList
    } else if range_is(line, 0, end, "#EXT-X-INDEPENDENT-SEGMENTS") {
        Tag::IndependentSegments
    } else if range_is(line, 0, end, "#EXT-X-I-FRAMES-ONLY") {
        Tag::IFramesOnly
    } else if range_is(line, 0, end, "#EXT-X-PLAYLIST-TYPE") {
        Tag::PlaylistType
    } else if range_is(line, 0, end, "#EXT-X-PROGRAM-DATE-TIME") {
        Tag::ProgramDateTime
    } else if range_is(line, 0, end, "#EXTINF") {
        Tag::Inf
    } else if range_is(line, 0, end, "#EXT-X-BYTERANGE") {
        Tag::ByteRange
    } else if range_is(line, 0, end, "#EXT-X-MAP") {
        Tag::InitMap
    } else if range_is(line, 0, end, "#EXT-X-START") {
        Tag::Start
    } else {
        Tag::Unrecognized
    };
    (tag, end)
}

} // verus!
