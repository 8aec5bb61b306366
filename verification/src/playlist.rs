//! The media playlist model and the queries a scheduler asks of it.
//!
//! Points in time are counted in microseconds since 1970-01-01T00:00:00Z
//! (or since an arbitrary zero where the manifest gives no date) and held in
//! `u128`; durations are counted in microseconds and held in `u64`.

use vstd::prelude::*;
use crate::byte_range::ByteRange;
use crate::text::range_is;
use crate::url::{extension_of, Url};

verus! {

/// How a playlist may still change.
#[derive(Clone, Copy, Debug, PartialEq, Eq, Structural)]
pub enum PlaylistType {
    /// Segments may be added at the end, none is removed.
    Event,
    /// The playlist never changes.
    VoD,
    /// Not stated, or stated with a word that is not known.
    Unspecified,
}

/// The kind of media a playlist carries.
#[derive(Clone, Copy, Debug, PartialEq, Eq, Structural)]
pub enum MediaType {
    Audio,
    Video,
}

/// Why a manifest gave no playlist.
#[derive(Clone, Copy, Debug, PartialEq, Eq, Structural)]
pub enum MediaPlaylistParsingError {
    UnparsableExtInf,
    UnparsableByteRange,
    UriMissingInMap,
    MissingTargetDuration,
    UriWithoutExtInf,
}

/// Something odd in a manifest that did not keep it from being read.
#[derive(Clone, Copy, Debug, PartialEq, Eq, Structural)]
pub enum Anomaly {
    UnparsableVersion,
    UnparsableTargetDuration,
    UnparsableMediaSequence,
    UnparsableDiscontinuitySequence,
    UnrecognizedPlaylistType,
    UnparsableProgramDateTime,
    /// An attribute name of a `MAP` tag with no `=` behind it.
    AttributeNameWithoutEqualSign,
    /// An attribute value of a `MAP` tag that is no closed quoted string.
    MalformedAttributeValue,
    UnrecognizedTag,
}

/// Where playback should start, as far as the manifest says.
#[derive(Clone, Copy, Debug, PartialEq, Eq, Structural)]
pub struct StartAttribute {
    pub time_offset: Option<i64>,
    pub precise: bool,
}

/// The initialization segment of a playlist.
#[derive(Debug)]
pub struct MapInfo {
    pub uri: Url,
    pub byte_range: Option<ByteRange>,
}

pub struct MapInfoView {
    pub uri: Seq<char>,
    pub byte_range: Option<ByteRange>,
}

impl View for MapInfo {
    type V = MapInfoView;

    open spec fn view(&self) -> MapInfoView {
        MapInfoView { uri: self.uri@, byte_range: self.byte_range }
    }
}

impl Clone for MapInfo {
    fn clone(&self) -> (out: MapInfo)
        ensures
            out@ == self@,
    {
        MapInfo { uri: self.uri.clone(), byte_range: self.byte_range }
    }
}

/// One segment of a playlist.
#[derive(Debug)]
pub struct SegmentInfo {
    pub start: u128,
    pub duration: u64,
    pub byte_range: Option<ByteRange>,
    pub url: Url,
}

pub struct SegmentInfoView {
    pub start: int,
    pub duration: int,
    pub byte_range: Option<ByteRange>,
    pub url: Seq<char>,
}

impl SegmentInfoView {
    /// The point in time at which the segment ends.
    pub open spec fn end(self) -> int {
        self.start + self.duration
    }
}

impl View for SegmentInfo {
    type V = SegmentInfoView;

    open spec fn view(&self) -> SegmentInfoView {
        SegmentInfoView {
            start: self.start as int,
            duration: self.duration as int,
            byte_range: self.byte_range,
            url: self.url@,
        }
    }
}

impl Clone for SegmentInfo {
    fn clone(&self) -> (out: SegmentInfo)
        ensures
            out@ == self@,
    {
        SegmentInfo {
            start: self.start,
            duration: self.duration,
            byte_range: self.byte_range,
            url: self.url.clone(),
        }
    }
}

/// The views of a run of segments, in order.
pub open spec fn segment_views(segments: Seq<SegmentInfo>) -> Seq<SegmentInfoView> {
    Seq::new(segments.len(), |i: int| segments[i]@)
}

/// Copies a run of segments.
fn clone_segments(segments: &Vec<SegmentInfo>) -> (out: Vec<SegmentInfo>)
    ensures
        segment_views(out@) == segment_views(segments@),
{
    let mut out: Vec<SegmentInfo> = Vec::new();
    let mut i: usize = 0;
    while i < segments.len()
        invariant
            i <= segments@.len(),
            out@.len() == i,
            forall|k: int| 0 <= k < i ==> out@[k]@ == segments@[k]@,
        decreases segments@.len() - i,
    {
        out.push(segments[i].clone());
        i = i + 1;
    }
    assert(segment_views(out@) =~= segment_views(segments@));
    out
}

/// Copies a run of anomalies.
fn clone_anomalies(anomalies: &Vec<Anomaly>) -> (out: Vec<Anomaly>)
    ensures
        out@ == anomalies@,
{
    let mut out: Vec<Anomaly> = Vec::new();
    let mut i: usize = 0;
    while i < anomalies.len()
        invariant
            i <= anomalies@.len(),
            out@ == anomalies@.take(i as int),
        decreases anomalies@.len() - i,
    {
        out.push(anomalies[i]);
        i = i + 1;
        assert(anomalies@.take(i as int) =~= anomalies@.take(i - 1).push(anomalies@[i - 1]));
    }
    assert(anomalies@.take(i as int) =~= anomalies@);
    out
}

/// An ordered list of segments.
#[derive(Debug)]
pub struct SegmentList {
    pub inner: Vec<SegmentInfo>,
}

impl Clone for SegmentList {
    fn clone(&self) -> (out: SegmentList)
        ensures
            out@ == self@,
    {
        SegmentList { inner: clone_segments(&self.inner) }
    }
}

impl View for SegmentList {
    type V = Seq<SegmentInfoView>;

    open spec fn view(&self) -> Seq<SegmentInfoView> {
        segment_views(self.inner@)
    }
}

/// What a media playlist manifest says.
#[derive(Debug)]
pub struct MediaPlaylist {
    pub version: Option<u32>,
    pub independent_segments: bool,
    pub start: StartAttribute,
    pub target_duration: u32,
    pub media_sequence: u32,
    pub discontinuity_sequence: u32,
    pub end_list: bool,
    pub playlist_type: PlaylistType,
    pub i_frames_only: bool,
    pub map: Option<MapInfo>,
    pub segment_list: Vec<SegmentInfo>,
    pub url: Url,
    /// What was odd in the manifest, in the order in which it was met.
    pub anomalies: Vec<Anomaly>,
}

impl Clone for MediaPlaylist {
    fn clone(&self) -> (out: MediaPlaylist)
        ensures
            out@ == self@,
    {
        MediaPlaylist {
            version: self.version,
            independent_segments: self.independent_segments,
            start: self.start,
            target_duration: self.target_duration,
            media_sequence: self.media_sequence,
            discontinuity_sequence: self.discontinuity_sequence,
            end_list: self.end_list,
            playlist_type: self.playlist_type,
            i_frames_only: self.i_frames_only,
            map: match &self.map {
                Some(info) => Some(info.clone()),
                None => None,
            },
            segment_list: clone_segments(&self.segment_list),
            url: self.url.clone(),
            anomalies: clone_anomalies(&self.anomalies),
        }
    }
}

pub struct MediaPlaylistView {
    pub version: Option<u32>,
    pub independent_segments: bool,
    pub start: StartAttribute,
    pub target_duration: u32,
    pub media_sequence: u32,
    pub discontinuity_sequence: u32,
    pub end_list: bool,
    pub playlist_type: PlaylistType,
    pub i_frames_only: bool,
    pub map: Option<MapInfoView>,
    pub segment_list: Seq<SegmentInfoView>,
    pub url: Seq<char>,
    pub anomalies: Seq<Anomaly>,
}

/// The view of an optional initialization segment.
pub open spec fn map_view(map: Option<MapInfo>) -> Option<MapInfoView> {
    match map {
        Some(info) => Some(info@),
        None => None,
    }
}

impl View for MediaPlaylist {
    type V = MediaPlaylistView;

    open spec fn view(&self) -> MediaPlaylistView {
        MediaPlaylistView {
            version: self.version,
            independent_segments: self.independent_segments,
            start: self.start,
            target_duration: self.target_duration,
            media_sequence: self.media_sequence,
            discontinuity_sequence: self.discontinuity_sequence,
            end_list: self.end_list,
            playlist_type: self.playlist_type,
            i_frames_only: self.i_frames_only,
            map: map_view(self.map),
            segment_list: segment_views(self.segment_list@),
            url: self.url@,
            anomalies: self.anomalies@,
        }
    }
}

impl MediaPlaylistView {
    /// Every segment ends at a point in time that can be counted.
    pub open spec fn wf(self) -> bool {
        forall|i: int|
            0 <= i < self.segment_list.len() ==> (#[trigger] self.segment_list[i]).end()
                <= u128::MAX
    }

    /// The file extension of the first segment.
    pub open spec fn extension(self) -> Option<Seq<char>> {
        if self.segment_list.len() == 0 {
            None
        } else {
            Some(extension_of(self.segment_list[0].url))
        }
    }

    /// The point in time at which the first segment starts.
    pub open spec fn beginning(self) -> Option<int> {
        if self.segment_list.len() == 0 {
            None
        } else {
            Some(self.segment_list[0].start)
        }
    }

    /// The point in time at which the first segment ends.
    pub open spec fn first_end(self) -> Option<int> {
        if self.segment_list.len() == 0 {
            None
        } else {
            Some(self.segment_list[0].end())
        }
    }

    /// The point in time at which the last segment starts.
    pub open spec fn last_start(self) -> Option<int> {
        if self.segment_list.len() == 0 {
            None
        } else {
            Some(self.segment_list.last().start)
        }
    }

    /// The point in time at which the last segment ends.
    pub open spec fn duration(self) -> Option<int> {
        if self.segment_list.len() == 0 {
            None
        } else {
            Some(self.segment_list.last().end())
        }
    }
}

/// An optional point in time as a mathematical integer.
pub open spec fn instant(at: Option<u128>) -> Option<int> {
    match at {
        Some(t) => Some(t as int),
        None => None,
    }
}

/// The MIME type that goes with a file extension for the given kind of
/// media. `None` for an extension that is not in the table.
pub open spec fn mime_of(extension: Seq<char>, media_type: MediaType) -> Option<Seq<char>> {
    match media_type {
        MediaType::Audio => if extension == "mp4"@ || extension == "mp4a"@ || extension == "m4s"@
            || extension == "m4i"@ || extension == "m4a"@ || extension == "m4f"@ || extension
            == "cmfa"@ {
            Some("audio/mp4"@)
        } else if extension == "aac"@ {
            Some("audio/aac"@)
        } else if extension == "ac3"@ {
            Some("audio/ac3"@)
        } else if extension == "ec3"@ {
            Some("audio/ec3"@)
        } else if extension == "mp3"@ {
            Some("audio/mpeg"@)
        } else if extension == "ts"@ {
            Some("video/mp2t"@)
        } else {
            None
        },
        MediaType::Video => if extension == "mp4"@ || extension == "mp4v"@ || extension == "m4s"@
            || extension == "m4i"@ || extension == "m4v"@ || extension == "m4f"@ || extension
            == "cmfv"@ {
            Some("video/mp4"@)
        } else if extension == "ts"@ {
            Some("video/mp2t"@)
        } else {
            None
        },
    }
}

/// The view of an optional string.
pub open spec fn str_view(s: Option<&str>) -> Option<Seq<char>> {
    match s {
        Some(s) => Some(s@),
        None => None,
    }
}

/// Tells whether `text` spells `literal`.
fn is(text: &[char], literal: &str) -> (same: bool)
    ensures
        same == (text@ == literal@),
{
    assert(text@.subrange(0, text@.len() as int) =~= text@);
    range_is(text, 0, text.len(), literal)
}

/// Looks a file extension up in the table of the given kind of media.
pub fn mime_for_extension(extension: &[char], media_type: MediaType) -> (mime: Option<
    &'static str,
>)
    ensures
        str_view(mime) == mime_of(extension@, media_type),
{
    match media_type {
        MediaType::Audio => {
            if is(extension, "mp4") || is(extension, "mp4a") || is(extension, "m4s") || is(
                extension,
                "m4i",
            ) || is(extension, "m4a") || is(extension, "m4f") || is(extension, "cmfa") {
                Some("audio/mp4")
            } else if is(extension, "aac") {
                Some("audio/aac")
            } else if is(extension, "ac3") {
                Some("audio/ac3")
            } else if is(extension, "ec3") {
                Some("audio/ec3")
            } else if is(extension, "mp3") {
                Some("audio/mpeg")
            } else if is(extension, "ts") {
                Some("video/mp2t")
            } else {
                None
            }
        },
        MediaType::Video => {
            if is(extension, "mp4") || is(extension, "mp4v") || is(extension, "m4s") || is(
                extension,
                "m4i",
            ) || is(extension, "m4v") || is(extension, "m4f") || is(extension, "cmfv") {
                Some("video/mp4")
            } else if is(extension, "ts") {
                Some("video/mp2t")
            } else {
                None
            }
        },
    }
}

/// What to tell a user about each error.
pub open spec fn error_message(error: MediaPlaylistParsingError) -> Seq<char> {
    match error {
        MediaPlaylistParsingError::UnparsableExtInf => "One of the #EXTINF value could not be parsed"@,
        MediaPlaylistParsingError::UriMissingInMap => "An #EXT-X-MAP was missing its mandatory URI attribute"@,
        MediaPlaylistParsingError::MissingTargetDuration => "Missing mandatory TARGETDURATION attribute"@,
        MediaPlaylistParsingError::UriWithoutExtInf => "One of the uri was not linked to any #EXTINF"@,
        MediaPlaylistParsingError::UnparsableByteRange => "One of the uri had an Unparsable BYTERANGE"@,
    }
}

impl MediaPlaylistParsingError {
    /// The message that goes with the error.
    pub fn message(&self) -> (text: &'static str)
        ensures
            text@ == error_message(*self),
    {
        match self {
            MediaPlaylistParsingError::UnparsableExtInf => {
                "One of the #EXTINF value could not be parsed"
            },
            MediaPlaylistParsingError::UriMissingInMap => {
                "An #EXT-X-MAP was missing its mandatory URI attribute"
            },
            MediaPlaylistParsingError::MissingTargetDuration => {
                "Missing mandatory TARGETDURATION attribute"
            },
            MediaPlaylistParsingError::UriWithoutExtInf => {
                "One of the uri was not linked to any #EXTINF"
            },
            MediaPlaylistParsingError::UnparsableByteRange => {
                "One of the uri had an Unparsable BYTERANGE"
            },
        }
    }

    /// The message that goes with the error, as an owned string.
    pub fn to_string(&self) -> (text: String)
        ensures
            text@ == error_message(*self),
    {
        self.message().to_owned()
    }
}

impl MediaPlaylist {
    /// Every segment ends at a point in time that can be counted.
    pub open spec fn wf(&self) -> bool {
        self@.wf()
    }

    pub fn extension(&self) -> (out: Option<&[char]>)
        ensures
            match out {
                Some(extension) => self@.extension() == Some(extension@),
                None => self@.extension() is None,
            },
    {
        if self.segment_list.len() == 0 {
            None
        } else {
            Some(self.segment_list[0].url.extension())
        }
    }

    pub fn target_duration(&self) -> (seconds: u32)
        ensures
            seconds == self@.target_duration,
    {
        self.target_duration
    }

    /// The point in time at which the playlist begins.
    pub fn beginning(&self) -> (at: Option<u128>)
        ensures
            instant(at) == self@.beginning(),
    {
        if self.segment_list.len() == 0 {
            None
        } else {
            Some(self.segment_list[0].start)
        }
    }

    /// The point in time at which the playlist ends.
    pub fn duration(&self) -> (at: Option<u128>)
        requires
            self.wf(),
        ensures
            instant(at) == self@.duration(),
    {
        let count = self.segment_list.len();
        if count == 0 {
            None
        } else {
            let last = &self.segment_list[count - 1];
            assert(self@.segment_list[count - 1].end() <= u128::MAX);
            Some(last.start + last.duration as u128)
        }
    }

    /// Gives the MIME type of the segments, as far as their file extension
    /// tells it.
    pub fn mime_type(&self, media_type: MediaType) -> (mime: Option<&'static str>)
        ensures
            str_view(mime) == match self@.extension() {
                Some(extension) => mime_of(extension, media_type),
                None => None,
            },
    {
        match self.extension() {
            Some(extension) => mime_for_extension(extension, media_type),
            None => None,
        }
    }

    pub fn init_segment(&self) -> (out: Option<&MapInfo>)
        ensures
            match out {
                Some(info) => self@.map == Some(info@),
                None => self@.map is None,
            },
    {
        self.map.as_ref()
    }

    /// The start of the last segment of a playlist that is complete. A
    /// playlist that may still grow has no last segment.
    pub fn last_segment_start(&self) -> (at: Option<u128>)
        ensures
            instant(at) == if self@.end_list {
                self@.last_start()
            } else {
                None
            },
    {
        let count = self.segment_list.len();
        if !self.end_list || count == 0 {
            None
        } else {
            Some(self.segment_list[count - 1].start)
        }
    }

    /// The end of the last segment of a playlist that is complete.
    pub fn last_segment_end(&self) -> (at: Option<u128>)
        requires
            self.wf(),
        ensures
            instant(at) == if self@.end_list {
                self@.duration()
            } else {
                None
            },
    {
        if self.end_list {
            self.duration()
        } else {
            None
        }
    }

    pub fn first_segment_start(&self) -> (at: Option<u128>)
        ensures
            instant(at) == self@.beginning(),
    {
        self.beginning()
    }

    pub fn first_segment_end(&self) -> (at: Option<u128>)
        requires
            self.wf(),
        ensures
            instant(at) == self@.first_end(),
    {
        if self.segment_list.len() == 0 {
            None
        } else {
            let first = &self.segment_list[0];
            assert(self@.segment_list[0].end() <= u128::MAX);
            Some(first.start + first.duration as u128)
        }
    }
}

} // verus!
