//! Reading a media playlist manifest: one pass over its lines, folding each
//! line into a parser state, and assembling the playlist at the end.

use vstd::prelude::*;
use vstd::slice::slice_subrange;
use crate::byte_range::{byte_range_at, parse_byte_range, ByteRange};
use crate::date::{iso_8601_at, parse_iso_8601_date};
use crate::playlist::{
    map_view, segment_views, Anomaly, MapInfo, MapInfoView, MediaPlaylist,
    MediaPlaylistParsingError, MediaPlaylistView, PlaylistType, SegmentInfo, SegmentInfoView,
    StartAttribute,
};
use crate::primitives::{
    decimal_integer_at, decimal_micros_at, enumerated_string_at, parse_decimal_floating_point,
    parse_decimal_integer, parse_enumerated_string, parse_quoted_string, quoted_string_at,
};
use crate::tag::{classify_line, classify_tag, line_kind, tag_name_end, tag_of, LineKind, Tag};
use crate::text::{find, find_char, lemma_find_char, range_is, str_to_chars};
use crate::url::{directory_of, resolve_url, Url};

verus! {

/// What has been gathered from the lines read so far.
pub struct ParserStateView {
    pub version: Option<u32>,
    pub independent_segments: bool,
    pub target_duration: Option<u32>,
    pub media_sequence: u32,
    pub discontinuity_sequence: u32,
    pub end_list: bool,
    pub playlist_type: PlaylistType,
    pub i_frames_only: bool,
    pub map: Option<MapInfoView>,
    /// The point in time at which the next segment starts.
    pub curr_start_time: int,
    pub segment_list: Seq<SegmentInfoView>,
    /// The duration announced for the next segment, until its location is read.
    pub next_segment_duration: Option<u64>,
    /// The byte that follows the last byte range of the segments.
    pub current_byte: Option<u64>,
    /// The byte range announced for the next segment, until its location is read.
    pub next_segment_byte_range: Option<ByteRange>,
    /// The byte that follows the last byte range of the initialization segments.
    pub init_current_byte: Option<u64>,
    pub anomalies: Seq<Anomaly>,
}

impl ParserStateView {
    /// The same state with one more anomaly on record.
    pub open spec fn noting(self, anomaly: Anomaly) -> ParserStateView {
        ParserStateView { anomalies: self.anomalies.push(anomaly), ..self }
    }

    /// The same state with the anomaly on record, where there is one.
    pub open spec fn noting_any(self, anomaly: Option<Anomaly>) -> ParserStateView {
        match anomaly {
            Some(anomaly) => self.noting(anomaly),
            None => self,
        }
    }
}

/// The state before the first line.
pub open spec fn initial_state() -> ParserStateView {
    ParserStateView {
        version: None,
        independent_segments: false,
        target_duration: None,
        media_sequence: 0,
        discontinuity_sequence: 0,
        end_list: false,
        playlist_type: PlaylistType::Unspecified,
        i_frames_only: false,
        map: None,
        curr_start_time: 0,
        segment_list: Seq::empty(),
        next_segment_duration: None,
        current_byte: None,
        next_segment_byte_range: None,
        init_current_byte: None,
        anomalies: Seq::empty(),
    }
}

/// The low 32 bits of a number, which is what the numeric fields keep.
pub open spec fn low_32_bits(value: u64) -> u32 {
    (value % 0x1_0000_0000) as u32
}

/// What the attributes of a `MAP` tag have given so far.
pub struct MapScanView {
    pub uri: Option<Seq<char>>,
    pub byte_range: Option<ByteRange>,
    pub current_byte: Option<u64>,
    pub anomaly: Option<Anomaly>,
}

/// The offset behind the character at `at`, or `at` itself at the end of
/// the line.
pub open spec fn past(line: Seq<char>, at: int) -> int {
    if at < line.len() {
        at + 1
    } else {
        at
    }
}

/// Where the value of a tag line starts: behind the colon that ends the
/// name of the tag, or at the end of a line without one.
pub open spec fn tag_value_start(line: Seq<char>) -> int {
    past(line, tag_name_end(line))
}

/// Where the attribute value that starts at `at` ends: past its closing
/// quote where it is quoted, else at the next comma or the end of the line.
/// `None` for a quoted value that is never closed.
pub open spec fn attribute_value_end(line: Seq<char>, at: int) -> Option<int> {
    if at < line.len() && line[at] == '"' {
        match quoted_string_at(line, at) {
            (Ok(_), next) => Some(next),
            (Err(_), _) => None,
        }
    } else {
        Some(find_char(line, ',', at))
    }
}

/// What one attribute of a `MAP` tag does to the scan.
pub enum MapStep {
    /// The attribute was taken in; the next one starts at the offset.
    Next(int, MapScanView),
    /// The scan ends here.
    Stop(MapScanView),
    /// The manifest cannot be read.
    Fail(MediaPlaylistParsingError),
}

/// Takes in the attribute of a `MAP` tag that starts at `offset`, of the
/// form `NAME=value` and followed by a comma or the end of the line.
///
/// `URI` gives the location, resolved against `base`; `BYTERANGE` gives a
/// byte range, which continues from `current_byte` where it names no start;
/// an attribute of another name is passed over. A byte range that cannot be
/// read is fatal. A name without `=`, or a value of `URI` or `BYTERANGE`
/// that is no closed quoted string, ends the scan with an anomaly and keeps
/// what was read before.
pub open spec fn map_attribute_at(
    line: Seq<char>,
    offset: int,
    scan: MapScanView,
    base: Seq<char>,
) -> MapStep {
    let eq = find_char(line, '=', offset);
    let name = line.subrange(offset, eq);
    let malformed = MapStep::Stop(
        MapScanView { anomaly: Some(Anomaly::MalformedAttributeValue), ..scan },
    );
    if eq >= line.len() {
        MapStep::Stop(
            MapScanView { anomaly: Some(Anomaly::AttributeNameWithoutEqualSign), ..scan },
        )
    } else if name == "URI"@ {
        match quoted_string_at(line, eq + 1) {
            (Ok(value), next) => MapStep::Next(
                past(line, next),
                MapScanView { uri: Some(resolve_url(base, value)), ..scan },
            ),
            (Err(_), _) => malformed,
        }
    } else if name == "BYTERANGE"@ {
        match quoted_string_at(line, eq + 1) {
            (Ok(value), next) => match byte_range_at(value, 0, scan.current_byte) {
                Some(range) => MapStep::Next(
                    past(line, next),
                    MapScanView {
                        byte_range: Some(range),
                        current_byte: Some((range.last_byte + 1) as u64),
                        ..scan
                    },
                ),
                None => MapStep::Fail(MediaPlaylistParsingError::UnparsableByteRange),
            },
            (Err(_), _) => malformed,
        }
    } else {
        match attribute_value_end(line, eq + 1) {
            Some(next) => MapStep::Next(past(line, next), scan),
            None => malformed,
        }
    }
}

/// An attribute that is taken in ends behind where it starts.
pub proof fn lemma_map_attribute_advances(
    line: Seq<char>,
    offset: int,
    scan: MapScanView,
    base: Seq<char>,
)
    requires
        0 <= offset < line.len(),
    ensures
        map_attribute_at(line, offset, scan, base) matches MapStep::Next(next, _) ==> offset < next
            <= line.len(),
{
    lemma_find_char(line, '=', offset);
    let eq = find_char(line, '=', offset);
    if eq < line.len() {
        lemma_find_char(line, ',', eq + 1);
        if eq + 1 < line.len() {
            lemma_find_char(line, '"', eq + 2);
        }
    }
}

/// Reads the attributes of a `MAP` tag from `offset` on, one after the
/// other, up to the end of the line or to the attribute that ends the scan.
pub open spec fn scan_map_attributes(
    line: Seq<char>,
    offset: int,
    scan: MapScanView,
    base: Seq<char>,
) -> Result<MapScanView, MediaPlaylistParsingError>
    decreases line.len() - offset,
{
    if offset < 0 || offset >= line.len() {
        Ok(scan)
    } else {
        proof {
            lemma_map_attribute_advances(line, offset, scan, base);
        }
        match map_attribute_at(line, offset, scan, base) {
            MapStep::Next(next, after) => scan_map_attributes(line, next, after, base),
            MapStep::Stop(after) => Ok(after),
            MapStep::Fail(error) => Err(error),
        }
    }
}

/// The state after a tag line. The value of the tag starts behind the colon
/// that ends its name.
///
/// - The format marker and the start hint change nothing.
/// - A flag tag sets its flag.
/// - A numeric tag sets its field to the low 32 bits of its number; without
///   a readable number the field stays and an anomaly is put on record.
/// - The playlist type is `EVENT` or `VOD`; any other word leaves it
///   unspecified, with an anomaly.
/// - A date sets the start of the next segment; one that cannot be read
///   leaves it, with an anomaly.
/// - A duration or a byte range is announced for the next segment; one
///   that cannot be read is fatal. A byte range without a start continues
///   behind the last one announced.
/// - The `MAP` tag gives the initialization segment; without a location it
///   is fatal.
/// - A tag of another name is put on record as an anomaly.
pub open spec fn after_tag(state: ParserStateView, line: Seq<char>, base: Seq<char>) -> Result<
    ParserStateView,
    MediaPlaylistParsingError,
> {
    let value_at = tag_value_start(line);
    match tag_of(line) {
        Tag::M3u | Tag::Start => Ok(state),
        Tag::Unrecognized => Ok(state.noting(Anomaly::UnrecognizedTag)),
        Tag::EndList => Ok(ParserStateView { end_list: true, ..state }),
        Tag::IndependentSegments => Ok(ParserStateView { independent_segments: true, ..state }),
        Tag::IFramesOnly => Ok(ParserStateView { i_frames_only: true, ..state }),
        Tag::Version => match decimal_integer_at(line, value_at).0 {
            Ok(value) => Ok(ParserStateView { version: Some(low_32_bits(value)), ..state }),
            Err(_) => Ok(state.noting(Anomaly::UnparsableVersion)),
        },
        Tag::TargetDuration => match decimal_integer_at(line, value_at).0 {
            Ok(value) => Ok(
                ParserStateView { target_duration: Some(low_32_bits(value)), ..state },
            ),
            Err(_) => Ok(state.noting(Anomaly::UnparsableTargetDuration)),
        },
        Tag::MediaSequence => match decimal_integer_at(line, value_at).0 {
            Ok(value) => Ok(ParserStateView { media_sequence: low_32_bits(value), ..state }),
            Err(_) => Ok(state.noting(Anomaly::UnparsableMediaSequence)),
        },
        Tag::DiscontinuitySequence => match decimal_integer_at(line, value_at).0 {
            Ok(value) => Ok(
                ParserStateView { discontinuity_sequence: low_32_bits(value), ..state },
            ),
            Err(_) => Ok(state.noting(Anomaly::UnparsableDiscontinuitySequence)),
        },
        Tag::PlaylistType => {
            let token = enumerated_string_at(line, value_at).0;
            if token == "EVENT"@ {
                Ok(ParserStateView { playlist_type: PlaylistType::Event, ..state })
            } else if token == "VOD"@ {
                Ok(ParserStateView { playlist_type: PlaylistType::VoD, ..state })
            } else {
                Ok(
                    ParserStateView { playlist_type: PlaylistType::Unspecified, ..state }.noting(
                        Anomaly::UnrecognizedPlaylistType,
                    ),
                )
            }
        },
        Tag::ProgramDateTime => match iso_8601_at(line, value_at) {
            Some(date) => Ok(ParserStateView { curr_start_time: date as int, ..state }),
            None => Ok(state.noting(Anomaly::UnparsableProgramDateTime)),
        },
        Tag::Inf => match decimal_micros_at(line, value_at).0 {
            Ok(duration) => Ok(ParserStateView { next_segment_duration: Some(duration), ..state }),
            Err(_) => Err(MediaPlaylistParsingError::UnparsableExtInf),
        },
        Tag::ByteRange => match byte_range_at(line, value_at, state.current_byte) {
            Some(range) => Ok(
                ParserStateView {
                    current_byte: Some((range.last_byte + 1) as u64),
                    next_segment_byte_range: Some(range),
                    ..state
                },
            ),
            None => Err(MediaPlaylistParsingError::UnparsableByteRange),
        },
        Tag::InitMap => match scan_map_attributes(
            line,
            value_at,
            MapScanView {
                uri: None,
                byte_range: None,
                current_byte: state.init_current_byte,
                anomaly: None,
            },
            base,
        ) {
            Ok(scan) => match scan.uri {
                Some(uri) => Ok(
                    ParserStateView {
                        map: Some(MapInfoView { uri, byte_range: scan.byte_range }),
                        init_current_byte: scan.current_byte,
                        ..state
                    }.noting_any(scan.anomaly),
                ),
                None => Err(MediaPlaylistParsingError::UriMissingInMap),
            },
            Err(error) => Err(error),
        },
    }
}

/// The state after a line that holds the location of a segment: the
/// segment that the lines before have announced is added, it starts where
/// the one before it ended, and what was announced is used up.
pub open spec fn after_uri(state: ParserStateView, line: Seq<char>, base: Seq<char>) -> Result<
    ParserStateView,
    MediaPlaylistParsingError,
> {
    match state.next_segment_duration {
        Some(duration) => Ok(
            ParserStateView {
                segment_list: state.segment_list.push(
                    SegmentInfoView {
                        start: state.curr_start_time,
                        duration: duration as int,
                        byte_range: state.next_segment_byte_range,
                        url: resolve_url(base, line),
                    },
                ),
                curr_start_time: state.curr_start_time + duration,
                next_segment_duration: None,
                next_segment_byte_range: None,
                ..state
            },
        ),
        None => Err(MediaPlaylistParsingError::UriWithoutExtInf),
    }
}

/// The state after one more line, or the error that ends the reading.
/// `base` is the directory of the manifest.
pub open spec fn after_line(state: ParserStateView, line: Seq<char>, base: Seq<char>) -> Result<
    ParserStateView,
    MediaPlaylistParsingError,
> {
    match line_kind(line) {
        LineKind::Blank | LineKind::Comment => Ok(state),
        LineKind::Tag => after_tag(state, line, base),
        LineKind::Uri => after_uri(state, line, base),
    }
}

/// The state after a run of lines, or the first error met.
pub open spec fn after_lines(state: ParserStateView, lines: Seq<Seq<char>>, base: Seq<char>) -> Result<
    ParserStateView,
    MediaPlaylistParsingError,
>
    decreases lines.len(),
{
    if lines.len() == 0 {
        Ok(state)
    } else {
        match after_line(state, lines[0], base) {
            Ok(next) => after_lines(next, lines.drop_first(), base),
            Err(error) => Err(error),
        }
    }
}

/// Where the line that starts at `pos` ends: before the line feed that
/// ends it, and before the carriage return in front of that line feed where
/// there is one. A last line without a line feed runs to the end of the text.
pub open spec fn line_end(text: Seq<char>, pos: int) -> int {
    let feed = find_char(text, '\n', pos);
    if feed < text.len() && feed > pos && text[feed - 1] == '\r' {
        feed - 1
    } else {
        feed
    }
}

/// The lines of `text` from `pos` on.
pub open spec fn lines_from(text: Seq<char>, pos: int) -> Seq<Seq<char>>
    decreases text.len() - pos,
{
    if pos < 0 || pos >= text.len() {
        Seq::empty()
    } else {
        proof {
            lemma_find_char(text, '\n', pos);
        }
        seq![text.subrange(pos, line_end(text, pos))] + lines_from(
            text,
            past(text, find_char(text, '\n', pos)),
        )
    }
}

/// The lines of a text. A line ends with a line feed or with a carriage
/// return and a line feed; the last line may be ended by the end of the text.
pub open spec fn lines_of(text: Seq<char>) -> Seq<Seq<char>> {
    lines_from(text, 0)
}

/// The playlist that the state read from a manifest amounts to. A manifest
/// that never gave its target duration gives no playlist.
pub open spec fn assemble(state: ParserStateView, url: Seq<char>) -> Result<
    MediaPlaylistView,
    MediaPlaylistParsingError,
> {
    match state.target_duration {
        Some(target_duration) => Ok(
            MediaPlaylistView {
                version: state.version,
                independent_segments: state.independent_segments,
                start: StartAttribute { time_offset: None, precise: false },
                target_duration,
                media_sequence: state.media_sequence,
                discontinuity_sequence: state.discontinuity_sequence,
                end_list: state.end_list,
                playlist_type: state.playlist_type,
                i_frames_only: state.i_frames_only,
                map: state.map,
                segment_list: state.segment_list,
                url,
                anomalies: state.anomalies,
            },
        ),
        None => Err(MediaPlaylistParsingError::MissingTargetDuration),
    }
}

/// What the manifest `text`, found at `url`, says: a playlist, or the first
/// fatal error in it.
pub open spec fn parse_playlist(text: Seq<char>, url: Seq<char>) -> Result<
    MediaPlaylistView,
    MediaPlaylistParsingError,
> {
    match after_lines(initial_state(), lines_of(text), directory_of(url)) {
        Ok(state) => assemble(state, url),
        Err(error) => Err(error),
    }
}

/// The state of the parser between two lines.
pub struct ParserState {
    pub version: Option<u32>,
    pub independent_segments: bool,
    pub target_duration: Option<u32>,
    pub media_sequence: u32,
    pub discontinuity_sequence: u32,
    pub end_list: bool,
    pub playlist_type: PlaylistType,
    pub i_frames_only: bool,
    pub map: Option<MapInfo>,
    pub curr_start_time: u128,
    pub segment_list: Vec<SegmentInfo>,
    pub next_segment_duration: Option<u64>,
    pub current_byte: Option<u64>,
    pub next_segment_byte_range: Option<ByteRange>,
    pub init_current_byte: Option<u64>,
    pub anomalies: Vec<Anomaly>,
}

impl View for ParserState {
    type V = ParserStateView;

    open spec fn view(&self) -> ParserStateView {
        ParserStateView {
            version: self.version,
            independent_segments: self.independent_segments,
            target_duration: self.target_duration,
            media_sequence: self.media_sequence,
            discontinuity_sequence: self.discontinuity_sequence,
            end_list: self.end_list,
            playlist_type: self.playlist_type,
            i_frames_only: self.i_frames_only,
            map: map_view(self.map),
            curr_start_time: self.curr_start_time as int,
            segment_list: segment_views(self.segment_list@),
            next_segment_duration: self.next_segment_duration,
            current_byte: self.current_byte,
            next_segment_byte_range: self.next_segment_byte_range,
            init_current_byte: self.init_current_byte,
            anomalies: self.anomalies@,
        }
    }
}

/// What a step of the parser gives, with the state taken by its view.
pub open spec fn outcome(out: Result<ParserState, MediaPlaylistParsingError>) -> Result<
    ParserStateView,
    MediaPlaylistParsingError,
> {
    match out {
        Ok(next) => Ok(next@),
        Err(error) => Err(error),
    }
}

/// The state that a step gives, where it gives one, is well formed.
pub open spec fn keeps_wf(out: Result<ParserState, MediaPlaylistParsingError>) -> bool {
    out matches Ok(next) ==> next.wf()
}

impl ParserState {
    /// No segment ends, and the next one does not start, later than the
    /// segments read so far can have taken together with a date before them.
    /// This keeps every point in time within `u128`.
    pub open spec fn wf(&self) -> bool {
        &&& self.curr_start_time <= (self.segment_list@.len() + 1) * u64::MAX
        &&& forall|i: int|
            0 <= i < self.segment_list@.len() ==> (#[trigger] self.segment_list@[i]).start
                + self.segment_list@[i].duration <= (i + 2) * u64::MAX
    }

    /// The state before the first line.
    pub fn new() -> (out: ParserState)
        ensures
            out@ == initial_state(),
            out.wf(),
    {
        let out = ParserState {
            version: None,
            independent_segments: false,
            target_duration: None,
            media_sequence: 0,
            discontinuity_sequence: 0,
            end_list: false,
            playlist_type: PlaylistType::Unspecified,
            i_frames_only: false,
            map: None,
            curr_start_time: 0,
            segment_list: Vec::new(),
            next_segment_duration: None,
            current_byte: None,
            next_segment_byte_range: None,
            init_current_byte: None,
            anomalies: Vec::new(),
        };
        assert(out@.segment_list =~= Seq::empty());
        out
    }

    /// Puts an anomaly on record.
    fn note(self, anomaly: Anomaly) -> (out: ParserState)
        requires
            self.wf(),
        ensures
            out@ == self@.noting(anomaly),
            out.wf(),
    {
        let mut out = self;
        out.anomalies.push(anomaly);
        out
    }

    /// Takes one more line in. `base` is the directory of the manifest.
    pub fn step(self, line: &[char], base: &[char]) -> (out: Result<
        ParserState,
        MediaPlaylistParsingError,
    >)
        requires
            self.wf(),
        ensures
            outcome(out) == after_line(self@, line@, base@),
            keeps_wf(out),
    {
        match classify_line(line) {
            LineKind::Blank => Ok(self),
            LineKind::Comment => Ok(self),
            LineKind::Tag => self.apply_tag(line, base),
            LineKind::Uri => self.close_segment(line, base),
        }
    }

    /// Takes a tag line in.
    pub fn apply_tag(self, line: &[char], base: &[char]) -> (out: Result<
        ParserState,
        MediaPlaylistParsingError,
    >)
        requires
            self.wf(),
            line@.len() >= 4,
        ensures
            outcome(out) == after_tag(self@, line@, base@),
            keeps_wf(out),
    {
        let (tag, name_end) = classify_tag(line);
        let value_at = if name_end < line.len() { name_end + 1 } else { name_end };
        match tag {
            Tag::M3u => Ok(self),
            Tag::Start => Ok(self),
            Tag::Unrecognized => Ok(self.note(Anomaly::UnrecognizedTag)),
            Tag::EndList => Ok(ParserState { end_list: true, ..self }),
            Tag::IndependentSegments => Ok(ParserState { independent_segments: true, ..self }),
            Tag::IFramesOnly => Ok(ParserState { i_frames_only: true, ..self }),
            Tag::Version => Ok(self.apply_version(line, value_at)),
            Tag::TargetDuration => Ok(self.apply_target_duration(line, value_at)),
            Tag::MediaSequence => Ok(self.apply_media_sequence(line, value_at)),
            Tag::DiscontinuitySequence => Ok(self.apply_discontinuity_sequence(line, value_at)),
            Tag::PlaylistType => Ok(self.apply_playlist_type(line, value_at)),
            Tag::ProgramDateTime => Ok(self.apply_program_date_time(line, value_at)),
            Tag::Inf => self.apply_inf(line, value_at),
            Tag::ByteRange => self.apply_byte_range(line, value_at),
            Tag::InitMap => self.apply_map(line, value_at, base),
        }
    }

    fn apply_version(self, line: &[char], value_at: usize) -> (out: ParserState)
        requires
            self.wf(),
        ensures
            out.wf(),
            out@ == match decimal_integer_at(line@, value_at as int).0 {
                Ok(value) => ParserStateView { version: Some(low_32_bits(value)), ..self@ },
                Err(_) => self@.noting(Anomaly::UnparsableVersion),
            },
    {
        match parse_decimal_integer(line, value_at).0 {
            Ok(value) => ParserState { version: Some(keep_low_32_bits(value)), ..self },
            Err(_) => self.note(Anomaly::UnparsableVersion),
        }
    }

    fn apply_target_duration(self, line: &[char], value_at: usize) -> (out: ParserState)
        requires
            self.wf(),
        ensures
            out.wf(),
            out@ == match decimal_integer_at(line@, value_at as int).0 {
                Ok(value) => ParserStateView {
                    target_duration: Some(low_32_bits(value)),
                    ..self@
                },
                Err(_) => self@.noting(Anomaly::UnparsableTargetDuration),
            },
    {
        match parse_decimal_integer(line, value_at).0 {
            Ok(value) => ParserState { target_duration: Some(keep_low_32_bits(value)), ..self },
            Err(_) => self.note(Anomaly::UnparsableTargetDuration),
        }
    }

    fn apply_media_sequence(self, line: &[char], value_at: usize) -> (out: ParserState)
        requires
            self.wf(),
        ensures
            out.wf(),
            out@ == match decimal_integer_at(line@, value_at as int).0 {
                Ok(value) => ParserStateView { media_sequence: low_32_bits(value), ..self@ },
                Err(_) => self@.noting(Anomaly::UnparsableMediaSequence),
            },
    {
        match parse_decimal_integer(line, value_at).0 {
            Ok(value) => ParserState { media_sequence: keep_low_32_bits(value), ..self },
            Err(_) => self.note(Anomaly::UnparsableMediaSequence),
        }
    }

    fn apply_discontinuity_sequence(self, line: &[char], value_at: usize) -> (out: ParserState)
        requires
            self.wf(),
        ensures
            out.wf(),
            out@ == match decimal_integer_at(line@, value_at as int).0 {
                Ok(value) => ParserStateView {
                    discontinuity_sequence: low_32_bits(value),
                    ..self@
                },
                Err(_) => self@.noting(Anomaly::UnparsableDiscontinuitySequence),
            },
    {
        match parse_decimal_integer(line, value_at).0 {
            Ok(value) => ParserState { discontinuity_sequence: keep_low_32_bits(value), ..self },
            Err(_) => self.note(Anomaly::UnparsableDiscontinuitySequence),
        }
    }

    fn apply_playlist_type(self, line: &[char], value_at: usize) -> (out: ParserState)
        requires
            self.wf(),
        ensures
            out.wf(),
            out@ == if enumerated_string_at(line@, value_at as int).0 == "EVENT"@ {
                ParserStateView { playlist_type: PlaylistType::Event, ..self@ }
            } else if enumerated_string_at(line@, value_at as int).0 == "VOD"@ {
                ParserStateView { playlist_type: PlaylistType::VoD, ..self@ }
            } else {
                ParserStateView { playlist_type: PlaylistType::Unspecified, ..self@ }.noting(
                    Anomaly::UnrecognizedPlaylistType,
                )
            },
    {
        let (token, _) = parse_enumerated_string(line, value_at);
        assert(token@.subrange(0, token@.len() as int) =~= token@);
        if range_is(token, 0, token.len(), "EVENT") {
            ParserState { playlist_type: PlaylistType::Event, ..self }
        } else if range_is(token, 0, token.len(), "VOD") {
            ParserState { playlist_type: PlaylistType::VoD, ..self }
        } else {
            ParserState { playlist_type: PlaylistType::Unspecified, ..self }.note(
                Anomaly::UnrecognizedPlaylistType,
            )
        }
    }

    fn apply_program_date_time(self, line: &[char], value_at: usize) -> (out: ParserState)
        requires
            self.wf(),
        ensures
            out.wf(),
            out@ == match iso_8601_at(line@, value_at as int) {
                Some(date) => ParserStateView { curr_start_time: date as int, ..self@ },
                None => self@.noting(Anomaly::UnparsableProgramDateTime),
            },
    {
        match parse_iso_8601_date(line, value_at) {
            Some(date) => ParserState { curr_start_time: date as u128, ..self },
            None => self.note(Anomaly::UnparsableProgramDateTime),
        }
    }

    fn apply_inf(self, line: &[char], value_at: usize) -> (out: Result<
        ParserState,
        MediaPlaylistParsingError,
    >)
        requires
            self.wf(),
        ensures
            keeps_wf(out),
            outcome(out) == match decimal_micros_at(line@, value_at as int).0 {
                Ok(duration) => Ok::<ParserStateView, MediaPlaylistParsingError>(
                    ParserStateView { next_segment_duration: Some(duration), ..self@ },
                ),
                Err(_) => Err(MediaPlaylistParsingError::UnparsableExtInf),
            },
    {
        match parse_decimal_floating_point(line, value_at).0 {
            Ok(duration) => Ok(ParserState { next_segment_duration: Some(duration), ..self }),
            Err(_) => Err(MediaPlaylistParsingError::UnparsableExtInf),
        }
    }

    fn apply_byte_range(self, line: &[char], value_at: usize) -> (out: Result<
        ParserState,
        MediaPlaylistParsingError,
    >)
        requires
            self.wf(),
        ensures
            keeps_wf(out),
            outcome(out) == match byte_range_at(line@, value_at as int, self@.current_byte) {
                Some(range) => Ok::<ParserStateView, MediaPlaylistParsingError>(
                    ParserStateView {
                        current_byte: Some((range.last_byte + 1) as u64),
                        next_segment_byte_range: Some(range),
                        ..self@
                    },
                ),
                None => Err(MediaPlaylistParsingError::UnparsableByteRange),
            },
    {
        match parse_byte_range(line, value_at, self.current_byte) {
            Some(range) => Ok(
                ParserState {
                    current_byte: Some(range.last_byte + 1),
                    next_segment_byte_range: Some(range),
                    ..self
                },
            ),
            None => Err(MediaPlaylistParsingError::UnparsableByteRange),
        }
    }

    /// Takes the attributes of a `MAP` tag in, which start at `value_at`.
    fn apply_map(self, line: &[char], value_at: usize, base: &[char]) -> (out: Result<
        ParserState,
        MediaPlaylistParsingError,
    >)
        requires
            self.wf(),
        ensures
            keeps_wf(out),
            outcome(out) == match scan_map_attributes(
                line@,
                value_at as int,
                MapScanView {
                    uri: None,
                    byte_range: None,
                    current_byte: self@.init_current_byte,
                    anomaly: None,
                },
                base@,
            ) {
                Ok(scan) => match scan.uri {
                    Some(uri) => Ok::<ParserStateView, MediaPlaylistParsingError>(
                        ParserStateView {
                            map: Some(MapInfoView { uri, byte_range: scan.byte_range }),
                            init_current_byte: scan.current_byte,
                            ..self@
                        }.noting_any(scan.anomaly),
                    ),
                    None => Err(MediaPlaylistParsingError::UriMissingInMap),
                },
                Err(error) => Err(error),
            },
    {
        let scan = match scan_map(line, value_at, self.init_current_byte, base) {
            Ok(scan) => scan,
            Err(error) => {
                return Err(error);
            },
        };
        match scan.uri {
            Some(uri) => {
                let next = ParserState {
                    map: Some(MapInfo { uri, byte_range: scan.byte_range }),
                    init_current_byte: scan.current_byte,
                    ..self
                };
                match scan.anomaly {
                    Some(anomaly) => Ok(next.note(anomaly)),
                    None => Ok(next),
                }
            },
            None => Err(MediaPlaylistParsingError::UriMissingInMap),
        }
    }

    /// Takes a line in that holds the location of a segment.
    pub fn close_segment(self, line: &[char], base: &[char]) -> (out: Result<
        ParserState,
        MediaPlaylistParsingError,
    >)
        requires
            self.wf(),
        ensures
            outcome(out) == after_uri(self@, line@, base@),
            keeps_wf(out),
    {
        let duration = match self.next_segment_duration {
            Some(duration) => duration,
            None => {
                return Err(MediaPlaylistParsingError::UriWithoutExtInf);
            },
        };
        let ghost before = self;
        let count = self.segment_list.len();
        let mut next = self;
        let segment = SegmentInfo {
            start: next.curr_start_time,
            duration,
            byte_range: next.next_segment_byte_range,
            url: Url::resolve(base, line),
        };
        let ghost added = segment@;
        next.segment_list.push(segment);
        next.curr_start_time = next.curr_start_time + duration as u128;
        next.next_segment_duration = None;
        next.next_segment_byte_range = None;
        proof {
            assert(segment_views(next.segment_list@) =~= segment_views(before.segment_list@).push(
                added,
            ));
            assert(next@ == after_uri(before@, line@, base@)->Ok_0);
        }
        Ok(next)
    }

    /// Assembles the playlist found at `url` from what was read.
    pub fn finish(self, url: Url) -> (out: Result<MediaPlaylist, MediaPlaylistParsingError>)
        requires
            self.wf(),
        ensures
            playlist_outcome(out) == assemble(self@, url@),
            out matches Ok(playlist) ==> playlist.wf(),
    {
        let target_duration = match self.target_duration {
            Some(target_duration) => target_duration,
            None => {
                return Err(MediaPlaylistParsingError::MissingTargetDuration);
            },
        };
        let count = self.segment_list.len();
        let playlist = MediaPlaylist {
            version: self.version,
            independent_segments: self.independent_segments,
            start: StartAttribute { time_offset: None, precise: false },
            target_duration,
            media_sequence: self.media_sequence,
            discontinuity_sequence: self.discontinuity_sequence,
            end_list: self.end_list,
            playlist_type: self.playlist_type,
            i_frames_only: self.i_frames_only,
            map: self.map,
            segment_list: self.segment_list,
            url,
            anomalies: self.anomalies,
        };
        assert forall|i: int| 0 <= i < playlist@.segment_list.len() implies (
        #[trigger] playlist@.segment_list[i]).end() <= u128::MAX by {
            assert(playlist.segment_list@[i].start + playlist.segment_list@[i].duration <= (i + 2)
                * u64::MAX);
            assert(i + 2 <= count + 1);
        }
        Ok(playlist)
    }
}

/// What reading a manifest gives, with the playlist taken by its view.
pub open spec fn playlist_outcome(out: Result<MediaPlaylist, MediaPlaylistParsingError>) -> Result<
    MediaPlaylistView,
    MediaPlaylistParsingError,
> {
    match out {
        Ok(playlist) => Ok(playlist@),
        Err(error) => Err(error),
    }
}

/// Cuts a number down to its low 32 bits.
fn keep_low_32_bits(value: u64) -> (out: u32)
    ensures
        out == low_32_bits(value),
{
    (value % 0x1_0000_0000) as u32
}

/// What the attributes of a `MAP` tag have given so far.
struct MapScan {
    uri: Option<Url>,
    byte_range: Option<ByteRange>,
    current_byte: Option<u64>,
    anomaly: Option<Anomaly>,
}

impl View for MapScan {
    type V = MapScanView;

    closed spec fn view(&self) -> MapScanView {
        MapScanView {
            uri: match self.uri {
                Some(uri) => Some(uri@),
                None => None,
            },
            byte_range: self.byte_range,
            current_byte: self.current_byte,
            anomaly: self.anomaly,
        }
    }
}

/// What one attribute of a `MAP` tag does to the scan.
enum MapStepTaken {
    Next(usize, MapScan),
    Stop(MapScan),
    Fail(MediaPlaylistParsingError),
}

impl View for MapStepTaken {
    type V = MapStep;

    closed spec fn view(&self) -> MapStep {
        match self {
            MapStepTaken::Next(next, scan) => MapStep::Next(*next as int, scan@),
            MapStepTaken::Stop(scan) => MapStep::Stop(scan@),
            MapStepTaken::Fail(error) => MapStep::Fail(*error),
        }
    }
}

/// Ends the scan of a `MAP` tag with an anomaly.
fn stop_scan(scan: MapScan, anomaly: Anomaly) -> (out: MapStepTaken)
    ensures
        out@ == MapStep::Stop(MapScanView { anomaly: Some(anomaly), ..scan@ }),
{
    let mut scan = scan;
    scan.anomaly = Some(anomaly);
    MapStepTaken::Stop(scan)
}

/// Takes in the attribute of a `MAP` tag that starts at `offset`.
fn read_map_attribute(line: &[char], offset: usize, scan: MapScan, base: &[char]) -> (out:
    MapStepTaken)
    requires
        offset < line@.len(),
    ensures
        out@ == map_attribute_at(line@, offset as int, scan@, base@),
{
    let eq = find(line, '=', offset);
    if eq >= line.len() {
        return stop_scan(scan, Anomaly::AttributeNameWithoutEqualSign);
    }
    if range_is(line, offset, eq, "URI") {
        match parse_quoted_string(line, eq + 1) {
            (Ok(value), next) => {
                let mut scan = scan;
                scan.uri = Some(Url::resolve(base, value));
                MapStepTaken::Next(if next < line.len() { next + 1 } else { next }, scan)
            },
            (Err(_), _) => stop_scan(scan, Anomaly::MalformedAttributeValue),
        }
    } else if range_is(line, offset, eq, "BYTERANGE") {
        match parse_quoted_string(line, eq + 1) {
            (Ok(value), next) => match parse_byte_range(value, 0, scan.current_byte) {
                Some(range) => {
                    let mut scan = scan;
                    scan.byte_range = Some(range);
                    scan.current_byte = Some(range.last_byte + 1);
                    MapStepTaken::Next(if next < line.len() { next + 1 } else { next }, scan)
                },
                None => MapStepTaken::Fail(MediaPlaylistParsingError::UnparsableByteRange),
            },
            (Err(_), _) => stop_scan(scan, Anomaly::MalformedAttributeValue),
        }
    } else if eq + 1 < line.len() && line[eq + 1] == '"' {
        match parse_quoted_string(line, eq + 1) {
            (Ok(_), next) => MapStepTaken::Next(
                if next < line.len() { next + 1 } else { next },
                scan,
            ),
            (Err(_), _) => stop_scan(scan, Anomaly::MalformedAttributeValue),
        }
    } else {
        let next = find(line, ',', eq + 1);
        MapStepTaken::Next(if next < line.len() { next + 1 } else { next }, scan)
    }
}

/// Reads the attributes of a `MAP` tag from `offset` on.
fn scan_map(line: &[char], offset: usize, current_byte: Option<u64>, base: &[char]) -> (out: Result<
    MapScan,
    MediaPlaylistParsingError,
>)
    ensures
        match out {
            Ok(scan) => scan_map_attributes(
                line@,
                offset as int,
                MapScanView { uri: None, byte_range: None, current_byte, anomaly: None },
                base@,
            ) == Ok::<MapScanView, MediaPlaylistParsingError>(scan@),
            Err(error) => scan_map_attributes(
                line@,
                offset as int,
                MapScanView { uri: None, byte_range: None, current_byte, anomaly: None },
                base@,
            ) == Err::<MapScanView, MediaPlaylistParsingError>(error),
        },
{
    let mut scan = MapScan { uri: None, byte_range: None, current_byte, anomaly: None };
    let ghost start = scan@;
    let mut at = offset;
    while at < line.len()
        invariant
            start == (MapScanView { uri: None, byte_range: None, current_byte, anomaly: None }),
            scan_map_attributes(line@, offset as int, start, base@) == scan_map_attributes(
                line@,
                at as int,
                scan@,
                base@,
            ),
        decreases line@.len() - at,
    {
        let ghost before = scan@;
        proof {
            lemma_map_attribute_advances(line@, at as int, before, base@);
        }
        match read_map_attribute(line, at, scan, base) {
            MapStepTaken::Next(next, after) => {
                at = next;
                scan = after;
            },
            MapStepTaken::Stop(after) => {
                assert(map_attribute_at(line@, at as int, before, base@) == MapStep::Stop(after@));
                return Ok(after);
            },
            MapStepTaken::Fail(error) => {
                assert(map_attribute_at(line@, at as int, before, base@) == MapStep::Fail(error));
                return Err(error);
            },
        }
    }
    Ok(scan)
}

impl MediaPlaylist {
    /// Reads the manifest `playlist`, which was found at `url`.
    ///
    /// Gives the playlist, with what was odd in the manifest on record in
    /// its `anomalies`, or the first fatal error.
    pub fn create(playlist: &str, url: Url) -> (out: Result<
        MediaPlaylist,
        MediaPlaylistParsingError,
    >)
        ensures
            playlist_outcome(out) == parse_playlist(playlist@, url@),
            out matches Ok(made) ==> made.wf(),
    {
        let text = str_to_chars(playlist);
        let chars = text.as_slice();
        let directory = Url::from_chars(url.pathname());
        let base = directory.as_chars();
        let mut state = ParserState::new();
        let mut pos: usize = 0;
        while pos < chars.len()
            invariant
                chars@ == playlist@,
                base@ == directory_of(url@),
                state.wf(),
                after_lines(initial_state(), lines_of(chars@), base@) == after_lines(
                    state@,
                    lines_from(chars@, pos as int),
                    base@,
                ),
            decreases chars@.len() - pos,
        {
            let feed = find(chars, '\n', pos);
            let end = if feed < chars.len() && feed > pos && chars[feed - 1] == '\r' {
                feed - 1
            } else {
                feed
            };
            let line = slice_subrange(chars, pos, end);
            let ghost rest = lines_from(chars@, past(chars@, feed as int));
            proof {
                assert(lines_from(chars@, pos as int) == seq![line@] + rest);
                assert((seq![line@] + rest)[0] == line@);
                assert((seq![line@] + rest).drop_first() =~= rest);
            }
            state = match state.step(line, base) {
                Ok(next) => next,
                Err(error) => {
                    return Err(error);
                },
            };
            pos = if feed < chars.len() { feed + 1 } else { feed };
        }
        state.finish(url)
    }
}

} // verus!
