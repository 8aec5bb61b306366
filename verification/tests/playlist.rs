use wasp_hls::{
    Anomaly, ByteRange, MediaPlaylist, MediaPlaylistParsingError, MediaType, PlaylistType, Url,
};

fn origin() -> Url {
    Url::new(String::from("https://host/path/live.m3u8"))
}

fn text(chars: &[char]) -> String {
    chars.iter().collect()
}

const VOD: &str = "#EXTM3U\n\
#EXT-X-VERSION:3\n\
#EXT-X-TARGETDURATION:10\n\
#EXT-X-MEDIA-SEQUENCE:7\n\
#EXT-X-DISCONTINUITY-SEQUENCE:2\n\
#EXT-X-PLAYLIST-TYPE:VOD\n\
#EXT-X-INDEPENDENT-SEGMENTS\n\
# a comment\n\
\n\
#EXTINF:9.009,first\n\
seg1.ts\n\
#EXTINF:9.5,\n\
https://cdn.example/abs/seg2.ts\n\
#EXTINF:3,\n\
seg3.ts\n\
#EXT-X-ENDLIST\n";

#[test]
fn reads_every_field_of_a_complete_playlist() {
    let playlist = MediaPlaylist::create(VOD, origin()).unwrap();
    assert_eq!(playlist.version, Some(3));
    assert_eq!(playlist.target_duration, 10);
    assert_eq!(playlist.target_duration(), 10);
    assert_eq!(playlist.media_sequence, 7);
    assert_eq!(playlist.discontinuity_sequence, 2);
    assert_eq!(playlist.playlist_type, PlaylistType::VoD);
    assert!(playlist.independent_segments);
    assert!(!playlist.i_frames_only);
    assert!(playlist.end_list);
    assert!(playlist.map.is_none());
    assert!(playlist.init_segment().is_none());
    assert_eq!(playlist.start.time_offset, None);
    assert!(!playlist.start.precise);
    assert_eq!(playlist.url.to_string(), "https://host/path/live.m3u8");
    assert_eq!(playlist.segment_list.len(), 3);
    assert!(playlist.anomalies.is_empty());
}

#[test]
fn segments_carry_duration_and_resolved_location() {
    let playlist = MediaPlaylist::create(VOD, origin()).unwrap();
    let segments = &playlist.segment_list;
    assert_eq!(segments[0].duration, 9_009_000);
    assert_eq!(segments[1].duration, 9_500_000);
    assert_eq!(segments[2].duration, 3_000_000);
    assert_eq!(segments[0].url.to_string(), "https://host/path/seg1.ts");
    assert_eq!(segments[1].url.to_string(), "https://cdn.example/abs/seg2.ts");
    assert_eq!(segments[2].url.to_string(), "https://host/path/seg3.ts");
    assert_eq!(segments[0].byte_range, None);
}

#[test]
fn each_segment_starts_where_the_one_before_ends() {
    let playlist = MediaPlaylist::create(VOD, origin()).unwrap();
    let segments = &playlist.segment_list;
    assert_eq!(segments[0].start, 0);
    assert_eq!(segments[1].start, 9_009_000);
    assert_eq!(segments[2].start, 18_509_000);
    for i in 1..segments.len() {
        assert!(segments[i - 1].start <= segments[i].start);
        assert_eq!(
            segments[i].start,
            segments[i - 1].start + segments[i - 1].duration as u128
        );
    }
}

#[test]
fn duration_is_beginning_plus_all_durations() {
    let manifest = "#EXT-X-TARGETDURATION:6\n\
#EXT-X-PROGRAM-DATE-TIME:1970-01-01T00:00:10Z\n\
#EXTINF:6.0,\na.ts\n#EXTINF:5.5,\nb.ts\n#EXTINF:0.25,\nc.ts\n";
    let playlist = MediaPlaylist::create(manifest, origin()).unwrap();
    let sum: u128 = playlist.segment_list.iter().map(|s| s.duration as u128).sum();
    assert_eq!(sum, 11_750_000);
    assert_eq!(playlist.beginning(), Some(10_000_000));
    assert_eq!(playlist.duration(), Some(21_750_000));
    assert_eq!(playlist.duration(), Some(playlist.beginning().unwrap() + sum));
}

#[test]
fn empty_playlist_has_no_boundaries() {
    let playlist = MediaPlaylist::create("#EXT-X-TARGETDURATION:6\n#EXT-X-ENDLIST\n", origin())
        .unwrap();
    assert!(playlist.segment_list.is_empty());
    assert_eq!(playlist.beginning(), None);
    assert_eq!(playlist.duration(), None);
    assert_eq!(playlist.first_segment_start(), None);
    assert_eq!(playlist.first_segment_end(), None);
    assert_eq!(playlist.last_segment_start(), None);
    assert_eq!(playlist.last_segment_end(), None);
    assert!(playlist.extension().is_none());
    assert_eq!(playlist.mime_type(MediaType::Video), None);
}

#[test]
fn last_segment_is_absent_while_the_playlist_may_grow() {
    let live = "#EXT-X-TARGETDURATION:6\n#EXTINF:6.0,\na.ts\n#EXTINF:4.0,\nb.ts\n";
    let playlist = MediaPlaylist::create(live, origin()).unwrap();
    assert!(!playlist.end_list);
    assert_eq!(playlist.last_segment_start(), None);
    assert_eq!(playlist.last_segment_end(), None);
    assert_eq!(playlist.first_segment_start(), Some(0));
    assert_eq!(playlist.first_segment_end(), Some(6_000_000));
    assert_eq!(playlist.duration(), Some(10_000_000));
}

#[test]
fn last_segment_is_known_once_the_playlist_is_complete() {
    let done = "#EXT-X-TARGETDURATION:6\n#EXTINF:6.0,\na.ts\n#EXTINF:4.0,\nb.ts\n#EXT-X-ENDLIST\n";
    let playlist = MediaPlaylist::create(done, origin()).unwrap();
    assert_eq!(playlist.last_segment_start(), Some(6_000_000));
    assert_eq!(playlist.last_segment_end(), Some(10_000_000));
    assert_eq!(playlist.first_segment_start(), Some(0));
    assert_eq!(playlist.first_segment_end(), Some(6_000_000));
}

#[test]
fn byte_ranges_chain_on_the_same_stream() {
    let manifest = "#EXT-X-TARGETDURATION:6\n\
#EXTINF:6.0,\n#EXT-X-BYTERANGE:1000@500\nmedia.mp4\n\
#EXTINF:6.0,\n#EXT-X-BYTERANGE:200\nmedia.mp4\n\
#EXTINF:6.0,\nother.mp4\n";
    let playlist = MediaPlaylist::create(manifest, origin()).unwrap();
    let segments = &playlist.segment_list;
    assert_eq!(segments[0].byte_range, Some(ByteRange { first_byte: 500, last_byte: 1499 }));
    assert_eq!(segments[1].byte_range, Some(ByteRange { first_byte: 1500, last_byte: 1699 }));
    assert_eq!(segments[2].byte_range, None);
}

#[test]
fn first_byte_range_without_offset_starts_at_zero() {
    let manifest = "#EXT-X-TARGETDURATION:6\n#EXTINF:6.0,\n#EXT-X-BYTERANGE:300\nmedia.mp4\n";
    let playlist = MediaPlaylist::create(manifest, origin()).unwrap();
    assert_eq!(
        playlist.segment_list[0].byte_range,
        Some(ByteRange { first_byte: 0, last_byte: 299 })
    );
}

#[test]
fn missing_target_duration_is_fatal() {
    let result = MediaPlaylist::create("#EXTINF:6.0,\nsegment1.ts", origin());
    assert_eq!(result.err(), Some(MediaPlaylistParsingError::MissingTargetDuration));
}

#[test]
fn unparsable_target_duration_counts_as_missing() {
    let result = MediaPlaylist::create("#EXT-X-TARGETDURATION:ten\n", origin());
    assert_eq!(result.err(), Some(MediaPlaylistParsingError::MissingTargetDuration));
}

#[test]
fn uri_without_extinf_is_fatal() {
    let result = MediaPlaylist::create("#EXT-X-TARGETDURATION:6\nsegment1.ts\n", origin());
    assert_eq!(result.err(), Some(MediaPlaylistParsingError::UriWithoutExtInf));
}

#[test]
fn second_uri_needs_its_own_extinf() {
    let manifest = "#EXT-X-TARGETDURATION:6\n#EXTINF:6.0,\na.ts\nb.ts\n";
    let result = MediaPlaylist::create(manifest, origin());
    assert_eq!(result.err(), Some(MediaPlaylistParsingError::UriWithoutExtInf));
}

#[test]
fn map_without_uri_is_fatal() {
    let manifest = "#EXT-X-TARGETDURATION:6\n#EXT-X-MAP:BYTERANGE=\"100@0\"\n";
    let result = MediaPlaylist::create(manifest, origin());
    assert_eq!(result.err(), Some(MediaPlaylistParsingError::UriMissingInMap));
}

#[test]
fn map_without_attributes_is_fatal() {
    let result = MediaPlaylist::create("#EXT-X-TARGETDURATION:6\n#EXT-X-MAP\n", origin());
    assert_eq!(result.err(), Some(MediaPlaylistParsingError::UriMissingInMap));
}

#[test]
fn unparsable_extinf_is_fatal() {
    let manifest = "#EXT-X-TARGETDURATION:6\n#EXTINF:abc,\na.ts\n";
    let result = MediaPlaylist::create(manifest, origin());
    assert_eq!(result.err(), Some(MediaPlaylistParsingError::UnparsableExtInf));
    let bare = MediaPlaylist::create("#EXT-X-TARGETDURATION:6\n#EXTINF\na.ts\n", origin());
    assert_eq!(bare.err(), Some(MediaPlaylistParsingError::UnparsableExtInf));
}

#[test]
fn unparsable_byte_range_is_fatal() {
    let manifest = "#EXT-X-TARGETDURATION:6\n#EXTINF:6,\n#EXT-X-BYTERANGE:x@0\na.ts\n";
    let result = MediaPlaylist::create(manifest, origin());
    assert_eq!(result.err(), Some(MediaPlaylistParsingError::UnparsableByteRange));
}

#[test]
fn unparsable_byte_range_of_the_init_segment_is_fatal_too() {
    let manifest = "#EXT-X-TARGETDURATION:6\n#EXT-X-MAP:URI=\"init.mp4\",BYTERANGE=\"@5\"\n";
    let result = MediaPlaylist::create(manifest, origin());
    assert_eq!(result.err(), Some(MediaPlaylistParsingError::UnparsableByteRange));
}

#[test]
fn unknown_playlist_type_is_an_anomaly() {
    let manifest = "#EXT-X-TARGETDURATION:6\n#EXT-X-PLAYLIST-TYPE:BOGUS\n";
    let playlist = MediaPlaylist::create(manifest, origin()).unwrap();
    assert_eq!(playlist.playlist_type, PlaylistType::Unspecified);
    assert_eq!(playlist.anomalies, vec![Anomaly::UnrecognizedPlaylistType]);
}

#[test]
fn unknown_playlist_type_overrides_an_earlier_one() {
    let manifest = "#EXT-X-TARGETDURATION:6\n#EXT-X-PLAYLIST-TYPE:EVENT\n#EXT-X-PLAYLIST-TYPE:LIVE\n";
    let playlist = MediaPlaylist::create(manifest, origin()).unwrap();
    assert_eq!(playlist.playlist_type, PlaylistType::Unspecified);
    let event = MediaPlaylist::create("#EXT-X-TARGETDURATION:6\n#EXT-X-PLAYLIST-TYPE:EVENT\n", origin())
        .unwrap();
    assert_eq!(event.playlist_type, PlaylistType::Event);
    assert!(event.anomalies.is_empty());
}

#[test]
fn mime_type_follows_extension_and_media_kind() {
    let manifest = "#EXT-X-TARGETDURATION:6\n#EXTINF:6,\nchunk.m4s\n";
    let playlist = MediaPlaylist::create(manifest, origin()).unwrap();
    assert_eq!(text(playlist.extension().unwrap()), "m4s");
    assert_eq!(playlist.mime_type(MediaType::Audio), Some("audio/mp4"));
    assert_eq!(playlist.mime_type(MediaType::Video), Some("video/mp4"));
    let odd = MediaPlaylist::create("#EXT-X-TARGETDURATION:6\n#EXTINF:6,\nchunk.xyz\n", origin())
        .unwrap();
    assert_eq!(text(odd.extension().unwrap()), "xyz");
    assert_eq!(odd.mime_type(MediaType::Audio), None);
    assert_eq!(odd.mime_type(MediaType::Video), None);
}

#[test]
fn relative_uri_resolves_against_the_manifest_directory() {
    let manifest = "#EXT-X-TARGETDURATION:6\n#EXTINF:6,\nseg1.ts\n";
    let playlist = MediaPlaylist::create(manifest, origin()).unwrap();
    assert_eq!(playlist.segment_list[0].url.to_string(), "https://host/path/seg1.ts");
}

#[test]
fn program_date_time_sets_the_start_of_the_next_segment() {
    let manifest = "#EXT-X-TARGETDURATION:6\n\
#EXT-X-PROGRAM-DATE-TIME:2010-02-19T14:54:23.031+08:00\n\
#EXTINF:6.0,\na.ts\n#EXTINF:6.0,\nb.ts\n";
    let playlist = MediaPlaylist::create(manifest, origin()).unwrap();
    assert_eq!(playlist.segment_list[0].start, 1_266_562_463_031_000);
    assert_eq!(playlist.segment_list[1].start, 1_266_562_469_031_000);
    assert!(playlist.anomalies.is_empty());
}

#[test]
fn malformed_program_date_time_keeps_the_clock() {
    let manifest = "#EXT-X-TARGETDURATION:6\n#EXTINF:6.0,\na.ts\n\
#EXT-X-PROGRAM-DATE-TIME:yesterday\n#EXTINF:6.0,\nb.ts\n";
    let playlist = MediaPlaylist::create(manifest, origin()).unwrap();
    assert_eq!(playlist.segment_list[1].start, 6_000_000);
    assert_eq!(playlist.anomalies, vec![Anomaly::UnparsableProgramDateTime]);
}

#[test]
fn date_after_a_segment_resets_the_clock() {
    let manifest = "#EXT-X-TARGETDURATION:6\n#EXTINF:6.0,\na.ts\n\
#EXT-X-PROGRAM-DATE-TIME:1970-01-01T00:00:01Z\n#EXTINF:6.0,\nb.ts\n";
    let playlist = MediaPlaylist::create(manifest, origin()).unwrap();
    assert_eq!(playlist.segment_list[0].start, 0);
    assert_eq!(playlist.segment_list[1].start, 1_000_000);
}

#[test]
fn carriage_returns_before_line_feeds_are_dropped() {
    let manifest = "#EXTM3U\r\n#EXT-X-TARGETDURATION:8\r\n#EXTINF:2.5,\r\nseg.ts\r\n\r\n#EXT-X-ENDLIST\r\n";
    let playlist = MediaPlaylist::create(manifest, origin()).unwrap();
    assert_eq!(playlist.target_duration, 8);
    assert!(playlist.end_list);
    assert_eq!(playlist.segment_list.len(), 1);
    assert_eq!(playlist.segment_list[0].duration, 2_500_000);
    assert_eq!(playlist.segment_list[0].url.to_string(), "https://host/path/seg.ts");
    assert!(playlist.anomalies.is_empty());
}

#[test]
fn last_line_needs_no_line_feed() {
    let playlist = MediaPlaylist::create("#EXT-X-TARGETDURATION:6\n#EXTINF:1,\nz.ts", origin())
        .unwrap();
    assert_eq!(playlist.segment_list.len(), 1);
    assert_eq!(playlist.segment_list[0].url.to_string(), "https://host/path/z.ts");
}

#[test]
fn unknown_tags_and_comments_do_not_stop_the_reading() {
    let manifest = "#EXT-X-TARGETDURATION:6\n#EXT-X-FUTURE:1\n#EXT-X-START:TIME-OFFSET=1\n#just a note\n#EXT\n";
    let playlist = MediaPlaylist::create(manifest, origin()).unwrap();
    assert_eq!(playlist.anomalies, vec![Anomaly::UnrecognizedTag, Anomaly::UnrecognizedTag]);
    assert_eq!(playlist.start.time_offset, None);
}

#[test]
fn unparsable_numbers_keep_the_earlier_value() {
    let manifest = "#EXT-X-TARGETDURATION:6\n#EXT-X-VERSION:4\n#EXT-X-VERSION:x\n\
#EXT-X-MEDIA-SEQUENCE:12\n#EXT-X-MEDIA-SEQUENCE:\n\
#EXT-X-DISCONTINUITY-SEQUENCE:3\n#EXT-X-DISCONTINUITY-SEQUENCE\n#EXT-X-TARGETDURATION:-1\n";
    let playlist = MediaPlaylist::create(manifest, origin()).unwrap();
    assert_eq!(playlist.version, Some(4));
    assert_eq!(playlist.media_sequence, 12);
    assert_eq!(playlist.discontinuity_sequence, 3);
    assert_eq!(playlist.target_duration, 6);
    assert_eq!(
        playlist.anomalies,
        vec![
            Anomaly::UnparsableVersion,
            Anomaly::UnparsableMediaSequence,
            Anomaly::UnparsableDiscontinuitySequence,
            Anomaly::UnparsableTargetDuration,
        ]
    );
}

#[test]
fn numbers_beyond_32_bits_keep_their_low_bits() {
    let manifest = "#EXT-X-TARGETDURATION:4294967302\n#EXT-X-VERSION:4294967297\n";
    let playlist = MediaPlaylist::create(manifest, origin()).unwrap();
    assert_eq!(playlist.target_duration, 6);
    assert_eq!(playlist.version, Some(1));
}

#[test]
fn flags_are_set_by_their_tags() {
    let manifest = "#EXT-X-TARGETDURATION:6\n#EXT-X-I-FRAMES-ONLY\n";
    let playlist = MediaPlaylist::create(manifest, origin()).unwrap();
    assert!(playlist.i_frames_only);
    assert!(!playlist.independent_segments);
    assert!(!playlist.end_list);
    assert_eq!(playlist.playlist_type, PlaylistType::Unspecified);
    assert_eq!(playlist.version, None);
    assert_eq!(playlist.media_sequence, 0);
    assert_eq!(playlist.discontinuity_sequence, 0);
}

#[test]
fn map_gives_the_init_segment() {
    let manifest = "#EXT-X-TARGETDURATION:6\n#EXT-X-MAP:URI=\"init.mp4\",BYTERANGE=\"720@0\"\n";
    let playlist = MediaPlaylist::create(manifest, origin()).unwrap();
    let init = playlist.init_segment().unwrap();
    assert_eq!(init.uri.to_string(), "https://host/path/init.mp4");
    assert_eq!(init.byte_range, Some(ByteRange { first_byte: 0, last_byte: 719 }));
    assert!(playlist.anomalies.is_empty());
}

#[test]
fn map_with_absolute_uri_and_no_byte_range() {
    let manifest = "#EXT-X-TARGETDURATION:6\n#EXT-X-MAP:URI=\"http://other/init.mp4\"\n";
    let playlist = MediaPlaylist::create(manifest, origin()).unwrap();
    let init = playlist.init_segment().unwrap();
    assert_eq!(init.uri.to_string(), "http://other/init.mp4");
    assert_eq!(init.byte_range, None);
}

#[test]
fn map_skips_attributes_it_does_not_know() {
    let manifest = "#EXT-X-TARGETDURATION:6\n\
#EXT-X-MAP:X-NOTE=\"a,b=c\",BYTERANGE=\"10@5\",X-N=7,URI=\"i.mp4\"\n";
    let playlist = MediaPlaylist::create(manifest, origin()).unwrap();
    let init = playlist.init_segment().unwrap();
    assert_eq!(init.uri.to_string(), "https://host/path/i.mp4");
    assert_eq!(init.byte_range, Some(ByteRange { first_byte: 5, last_byte: 14 }));
    assert!(playlist.anomalies.is_empty());
}

#[test]
fn map_attribute_without_equal_sign_ends_the_scan() {
    let manifest = "#EXT-X-TARGETDURATION:6\n#EXT-X-MAP:URI=\"i.mp4\",BYTERANGE\n";
    let playlist = MediaPlaylist::create(manifest, origin()).unwrap();
    let init = playlist.init_segment().unwrap();
    assert_eq!(init.uri.to_string(), "https://host/path/i.mp4");
    assert_eq!(init.byte_range, None);
    assert_eq!(playlist.anomalies, vec![Anomaly::AttributeNameWithoutEqualSign]);
}

#[test]
fn map_value_without_quotes_ends_the_scan() {
    let manifest = "#EXT-X-TARGETDURATION:6\n#EXT-X-MAP:URI=\"i.mp4\",BYTERANGE=10@0\n";
    let playlist = MediaPlaylist::create(manifest, origin()).unwrap();
    assert_eq!(playlist.init_segment().unwrap().byte_range, None);
    assert_eq!(playlist.anomalies, vec![Anomaly::MalformedAttributeValue]);
    let lost = MediaPlaylist::create("#EXT-X-TARGETDURATION:6\n#EXT-X-MAP:URI=i.mp4\n", origin());
    assert_eq!(lost.err(), Some(MediaPlaylistParsingError::UriMissingInMap));
}

#[test]
fn init_segment_ranges_do_not_move_the_segment_cursor() {
    let manifest = "#EXT-X-TARGETDURATION:6\n\
#EXTINF:6,\n#EXT-X-BYTERANGE:100@1000\nm.mp4\n\
#EXT-X-MAP:URI=\"i.mp4\",BYTERANGE=\"50@0\"\n\
#EXTINF:6,\n#EXT-X-BYTERANGE:100\nm.mp4\n\
#EXT-X-MAP:URI=\"i.mp4\",BYTERANGE=\"25\"\n";
    let playlist = MediaPlaylist::create(manifest, origin()).unwrap();
    assert_eq!(
        playlist.segment_list[1].byte_range,
        Some(ByteRange { first_byte: 1100, last_byte: 1199 })
    );
    assert_eq!(
        playlist.init_segment().unwrap().byte_range,
        Some(ByteRange { first_byte: 50, last_byte: 74 })
    );
}

#[test]
fn parsing_twice_gives_the_same_playlist() {
    let one = MediaPlaylist::create(VOD, origin()).unwrap();
    let two = MediaPlaylist::create(VOD, origin()).unwrap();
    assert_eq!(one.segment_list.len(), two.segment_list.len());
    for (a, b) in one.segment_list.iter().zip(two.segment_list.iter()) {
        assert_eq!(a.start, b.start);
        assert_eq!(a.duration, b.duration);
        assert_eq!(a.url.to_string(), b.url.to_string());
    }
    assert_eq!(one.duration(), two.duration());
}

#[test]
fn error_messages_name_what_went_wrong() {
    assert_eq!(
        MediaPlaylistParsingError::UnparsableExtInf.to_string(),
        "One of the #EXTINF value could not be parsed"
    );
    assert_eq!(
        MediaPlaylistParsingError::UriMissingInMap.message(),
        "An #EXT-X-MAP was missing its mandatory URI attribute"
    );
    assert_eq!(
        MediaPlaylistParsingError::MissingTargetDuration.message(),
        "Missing mandatory TARGETDURATION attribute"
    );
    assert_eq!(
        MediaPlaylistParsingError::UriWithoutExtInf.message(),
        "One of the uri was not linked to any #EXTINF"
    );
    assert_eq!(
        MediaPlaylistParsingError::UnparsableByteRange.message(),
        "One of the uri had an Unparsable BYTERANGE"
    );
}

#[test]
fn a_copy_of_a_playlist_says_the_same() {
    let manifest = "#EXT-X-TARGETDURATION:6\n#EXT-X-MAP:URI=\"i.mp4\",BYTERANGE=\"9@1\"\n\
#EXT-X-VERSION:?\n#EXTINF:1.5,\n#EXT-X-BYTERANGE:4@4\na.ts\n#EXT-X-ENDLIST\n";
    let playlist = MediaPlaylist::create(manifest, origin()).unwrap();
    let copy = playlist.clone();
    assert_eq!(copy.target_duration, 6);
    assert_eq!(copy.end_list, playlist.end_list);
    assert_eq!(copy.anomalies, vec![Anomaly::UnparsableVersion]);
    assert_eq!(copy.url.to_string(), playlist.url.to_string());
    assert_eq!(copy.segment_list.len(), 1);
    assert_eq!(copy.segment_list[0].start, 0);
    assert_eq!(copy.segment_list[0].duration, 1_500_000);
    assert_eq!(copy.segment_list[0].byte_range, Some(ByteRange { first_byte: 4, last_byte: 7 }));
    assert_eq!(copy.segment_list[0].url.to_string(), "https://host/path/a.ts");
    let init = copy.init_segment().unwrap();
    assert_eq!(init.uri.to_string(), "https://host/path/i.mp4");
    assert_eq!(init.byte_range, Some(ByteRange { first_byte: 1, last_byte: 9 }));
    assert_eq!(copy.last_segment_end(), Some(1_500_000));
}
