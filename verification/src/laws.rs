//! What holds of every playlist that is read from a manifest.

use vstd::prelude::*;
use crate::date::iso_8601_at;
use crate::parser::{
    after_line, after_lines, after_tag, after_uri, initial_state, lines_of, parse_playlist,
    tag_value_start, ParserStateView,
};
use crate::playlist::SegmentInfoView;
use crate::tag::{line_kind, tag_of, LineKind, Tag};
use crate::url::directory_of;

verus! {

/// A line that sets the point in time at which the next segment starts: a
/// `PROGRAM-DATE-TIME` tag with a date that can be read.
pub open spec fn sets_clock(line: Seq<char>) -> bool {
    &&& line_kind(line) == LineKind::Tag
    &&& tag_of(line) == Tag::ProgramDateTime
    &&& iso_8601_at(line, tag_value_start(line)) is Some
}

/// No line sets the clock once the location of a segment was read.
pub open spec fn dates_precede_segments(lines: Seq<Seq<char>>) -> bool {
    forall|i: int, j: int|
        0 <= i < j < lines.len() && line_kind(#[trigger] lines[i]) == LineKind::Uri
            ==> !sets_clock(#[trigger] lines[j])
}

/// Each segment but the first starts where the one before it ends.
pub open spec fn contiguous(segments: Seq<SegmentInfoView>) -> bool {
    forall|i: int|
        0 < i < segments.len() ==> (#[trigger] segments[i]).start == segments[i - 1].end()
}

/// No segment starts before the one in front of it.
pub open spec fn non_decreasing(segments: Seq<SegmentInfoView>) -> bool {
    forall|i: int|
        0 < i < segments.len() ==> segments[i - 1].start <= (#[trigger] segments[i]).start
}

/// The durations of the segments, added up.
pub open spec fn total_duration(segments: Seq<SegmentInfoView>) -> int
    decreases segments.len(),
{
    if segments.len() == 0 {
        0
    } else {
        total_duration(segments.drop_last()) + segments.last().duration
    }
}

/// The segments read so far follow each other, none lasts a negative time,
/// and the next segment starts where the last one ends.
pub open spec fn chained(state: ParserStateView) -> bool {
    &&& contiguous(state.segment_list)
    &&& forall|i: int|
        0 <= i < state.segment_list.len() ==> (#[trigger] state.segment_list[i]).duration >= 0
    &&& state.segment_list.len() > 0 ==> state.curr_start_time == state.segment_list.last().end()
}

/// A tag line leaves the segments as they are, and leaves the start of the
/// next segment as it is unless it sets the clock.
pub proof fn lemma_tag_keeps_segments(state: ParserStateView, line: Seq<char>, base: Seq<char>)
    requires
        after_tag(state, line, base) is Ok,
    ensures
        after_tag(state, line, base)->Ok_0.segment_list == state.segment_list,
        after_tag(state, line, base)->Ok_0.curr_start_time == state.curr_start_time || (tag_of(
            line,
        ) == Tag::ProgramDateTime && iso_8601_at(line, tag_value_start(line)) is Some),
{
    match tag_of(line) {
        Tag::M3u => {},
        Tag::Version => {},
        Tag::TargetDuration => {},
        Tag::MediaSequence => {},
        Tag::DiscontinuitySequence => {},
        Tag::EndList => {},
        Tag::IndependentSegments => {},
        Tag::IFramesOnly => {},
        Tag::PlaylistType => {},
        Tag::ProgramDateTime => {},
        Tag::Inf => {},
        Tag::ByteRange => {},
        Tag::InitMap => {},
        Tag::Start => {},
        Tag::Unrecognized => {},
    }
}

/// Only the location of a segment adds to the segments, and a line keeps
/// the segments chained unless it sets the clock behind a segment.
pub proof fn lemma_line_keeps_chain(state: ParserStateView, line: Seq<char>, base: Seq<char>)
    requires
        chained(state),
        after_line(state, line, base) is Ok,
        state.segment_list.len() > 0 ==> !sets_clock(line),
    ensures
        chained(after_line(state, line, base)->Ok_0),
        line_kind(line) != LineKind::Uri ==> after_line(state, line, base)->Ok_0.segment_list
            == state.segment_list,
{
    let next = after_line(state, line, base)->Ok_0;
    match line_kind(line) {
        LineKind::Blank => {},
        LineKind::Comment => {},
        LineKind::Tag => {
            lemma_tag_keeps_segments(state, line, base);
        },
        LineKind::Uri => {
            assert(next == after_uri(state, line, base)->Ok_0);
            let old_segments = state.segment_list;
            let segments = next.segment_list;
            assert(segments.len() == old_segments.len() + 1);
            assert forall|i: int| 0 < i < segments.len() implies (#[trigger] segments[i]).start
                == segments[i - 1].end() by {
                if i < old_segments.len() {
                    assert(segments[i] == old_segments[i]);
                    assert(segments[i - 1] == old_segments[i - 1]);
                } else {
                    assert(segments[i - 1] == old_segments.last());
                }
            }
            assert forall|i: int| 0 <= i < segments.len() implies (#[trigger] segments[i]).duration
                >= 0 by {
                if i < old_segments.len() {
                    assert(segments[i] == old_segments[i]);
                }
            }
        },
    }
}

/// Lines among which no date follows a segment keep the segments chained.
pub proof fn lemma_lines_keep_chain(state: ParserStateView, lines: Seq<Seq<char>>, base: Seq<char>)
    requires
        chained(state),
        after_lines(state, lines, base) is Ok,
        dates_precede_segments(lines),
        state.segment_list.len() > 0 ==> forall|j: int|
            0 <= j < lines.len() ==> !sets_clock(#[trigger] lines[j]),
    ensures
        chained(after_lines(state, lines, base)->Ok_0),
    decreases lines.len(),
{
    if lines.len() > 0 {
        let next = after_line(state, lines[0], base)->Ok_0;
        let rest = lines.drop_first();
        lemma_line_keeps_chain(state, lines[0], base);
        assert forall|i: int, j: int|
            0 <= i < j < rest.len() && line_kind(#[trigger] rest[i])
                == LineKind::Uri implies !sets_clock(#[trigger] rest[j]) by {
            assert(rest[i] == lines[i + 1]);
            assert(rest[j] == lines[j + 1]);
        }
        if next.segment_list.len() > 0 {
            assert forall|j: int| 0 <= j < rest.len() implies !sets_clock(#[trigger] rest[j]) by {
                assert(rest[j] == lines[j + 1]);
                if state.segment_list.len() == 0 {
                    assert(line_kind(lines[0]) == LineKind::Uri);
                }
            }
        }
        lemma_lines_keep_chain(next, rest, base);
    }
}

/// Segments that follow each other end at the start of the first plus the
/// durations of all.
pub proof fn lemma_contiguous_end(segments: Seq<SegmentInfoView>)
    requires
        contiguous(segments),
        segments.len() > 0,
    ensures
        segments.last().end() == segments[0].start + total_duration(segments),
    decreases segments.len(),
{
    let front = segments.drop_last();
    if front.len() == 0 {
        assert(total_duration(front) == 0);
    } else {
        assert forall|i: int| 0 < i < front.len() implies (#[trigger] front[i]).start == front[i
            - 1].end() by {
            assert(front[i] == segments[i]);
            assert(front[i - 1] == segments[i - 1]);
        }
        lemma_contiguous_end(front);
        assert(front.last() == segments[segments.len() - 2]);
        assert(front[0] == segments[0]);
        assert(segments.last() == segments[segments.len() - 1]);
    }
}

/// In a playlist read from a manifest in which no date follows a segment,
/// each segment but the first starts where the one before it ends, and the
/// start times never decrease.
pub proof fn lemma_segments_follow_each_other(text: Seq<char>, url: Seq<char>)
    requires
        parse_playlist(text, url) is Ok,
        dates_precede_segments(lines_of(text)),
    ensures
        contiguous(parse_playlist(text, url)->Ok_0.segment_list),
        non_decreasing(parse_playlist(text, url)->Ok_0.segment_list),
{
    let base = directory_of(url);
    assert(chained(initial_state()));
    lemma_lines_keep_chain(initial_state(), lines_of(text), base);
    let state = after_lines(initial_state(), lines_of(text), base)->Ok_0;
    let segments = parse_playlist(text, url)->Ok_0.segment_list;
    assert(segments == state.segment_list);
    assert forall|i: int| 0 < i < segments.len() implies segments[i - 1].start <= (
    #[trigger] segments[i]).start by {
        assert(segments[i - 1].duration >= 0);
    }
}

/// A playlist read from a manifest in which no date follows a segment ends
/// at its beginning plus the durations of its segments.
pub proof fn lemma_duration_is_beginning_plus_durations(text: Seq<char>, url: Seq<char>)
    requires
        parse_playlist(text, url) is Ok,
        dates_precede_segments(lines_of(text)),
        parse_playlist(text, url)->Ok_0.segment_list.len() > 0,
    ensures
        parse_playlist(text, url)->Ok_0.duration() == Some(
            parse_playlist(text, url)->Ok_0.beginning()->0 + total_duration(
                parse_playlist(text, url)->Ok_0.segment_list,
            ),
        ),
{
    lemma_segments_follow_each_other(text, url);
    lemma_contiguous_end(parse_playlist(text, url)->Ok_0.segment_list);
}

/// Once the location of a segment is read, what was announced for it is
/// used up: the next location needs a duration of its own, and gets no byte
/// range unless one is announced again. What else was gathered stays.
pub proof fn lemma_segment_uses_up_what_was_announced(
    state: ParserStateView,
    line: Seq<char>,
    base: Seq<char>,
)
    requires
        line_kind(line) == LineKind::Uri,
        after_line(state, line, base) is Ok,
    ensures
        state.next_segment_duration is Some,
        after_line(state, line, base)->Ok_0.next_segment_duration is None,
        after_line(state, line, base)->Ok_0.next_segment_byte_range is None,
        after_line(state, line, base)->Ok_0.segment_list.len() == state.segment_list.len() + 1,
        after_line(state, line, base)->Ok_0.segment_list.last().start == state.curr_start_time,
        after_line(state, line, base)->Ok_0.anomalies == state.anomalies,
        after_line(state, line, base)->Ok_0.current_byte == state.current_byte,
        after_line(state, line, base)->Ok_0.target_duration == state.target_duration,
{
}

/// A line that is fatal is fatal for the whole manifest: nothing that
/// follows it brings a playlist back.
pub proof fn lemma_fatal_line_is_final(
    state: ParserStateView,
    lines: Seq<Seq<char>>,
    base: Seq<char>,
    at: int,
)
    requires
        0 <= at < lines.len(),
        after_lines(state, lines.take(at), base) matches Ok(before) && after_line(
            before,
            lines[at],
            base,
        ) is Err,
    ensures
        after_lines(state, lines, base) is Err,
        after_lines(state, lines, base)->Err_0 == after_line(
            after_lines(state, lines.take(at), base)->Ok_0,
            lines[at],
            base,
        )->Err_0,
    decreases at,
{
    if at == 0 {
        assert(lines.take(0).len() == 0);
    } else {
        let next = after_line(state, lines[0], base);
        assert(lines.take(at)[0] == lines[0]);
        assert(lines.take(at).drop_first() =~= lines.drop_first().take(at - 1));
        assert(lines.drop_first()[at - 1] == lines[at]);
        lemma_fatal_line_is_final(next->Ok_0, lines.drop_first(), base, at - 1);
    }
}

/// A manifest gives a playlist exactly when none of its lines is fatal and
/// one of them gave the target duration; a playlist has a target duration.
pub proof fn lemma_playlist_needs_target_duration(text: Seq<char>, url: Seq<char>)
    ensures
        parse_playlist(text, url) is Ok <==> (after_lines(
            initial_state(),
            lines_of(text),
            directory_of(url),
        ) matches Ok(state) && state.target_duration is Some),
{
}

} // verus!
