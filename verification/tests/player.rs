use wasp_hls::{
    LogLevel, MediaPlaylist, PlayerAction, PlaylistFileType, Url, WaspHlsPlayer,
    WaspHlsPlayerReadyState,
};

#[test]
fn new_player_is_stopped_and_empty() {
    let player = WaspHlsPlayer::new(7);
    assert_eq!(player.id, 7);
    assert_eq!(player.ready_state, WaspHlsPlayerReadyState::Stopped);
    assert!(player.content.is_none());
    assert_eq!(player.last_position, 0);
    assert_eq!(player.buffer_goal, 30_000_000);
}

#[test]
fn load_content_asks_for_the_playlist_then_for_a_media_source() {
    let mut player = WaspHlsPlayer::new(3);
    let actions = player.load_content(String::from("https://host/path/live.m3u8"));
    assert_eq!(player.ready_state, WaspHlsPlayerReadyState::Loading);
    assert_eq!(player.id, 3);
    assert_eq!(actions.len(), 2);
    match &actions[0] {
        PlayerAction::FetchPlaylist(url, file_type) => {
            assert_eq!(url.to_string(), "https://host/path/live.m3u8");
            assert_eq!(*file_type, PlaylistFileType::Unknown);
        }
        other => panic!("unexpected first action {:?}", other),
    }
    match &actions[1] {
        PlayerAction::AttachMediaSource(id) => assert_eq!(*id, 3),
        other => panic!("unexpected second action {:?}", other),
    }
}

#[test]
fn load_content_drops_what_was_played() {
    let mut player = WaspHlsPlayer::new(1);
    let url = Url::new(String::from("https://host/a.m3u8"));
    player.content = Some(MediaPlaylist::create("#EXT-X-TARGETDURATION:2\n", url).unwrap());
    player.buffer_goal = 12_000_000;
    player.last_position = 5;
    player.load_content(String::from("https://host/b.m3u8"));
    assert!(player.content.is_none());
    assert_eq!(player.ready_state, WaspHlsPlayerReadyState::Loading);
    assert_eq!(player.buffer_goal, 12_000_000);
    assert_eq!(player.last_position, 5);
}

#[test]
fn stop_drops_the_content_and_keeps_the_settings() {
    let mut player = WaspHlsPlayer::new(9);
    player.load_content(String::from("https://host/a.m3u8"));
    let url = Url::new(String::from("https://host/a.m3u8"));
    player.content = Some(MediaPlaylist::create("#EXT-X-TARGETDURATION:2\n", url).unwrap());
    player.buffer_goal = 1;
    player.stop();
    assert_eq!(player.ready_state, WaspHlsPlayerReadyState::Stopped);
    assert!(player.content.is_none());
    assert_eq!(player.id, 9);
    assert_eq!(player.buffer_goal, 1);
}

#[test]
fn log_hands_level_and_message_to_the_host() {
    match WaspHlsPlayer::log(LogLevel::Warn, "careful") {
        PlayerAction::Log(level, message) => {
            assert_eq!(level, LogLevel::Warn);
            assert_eq!(message, "careful");
        }
        other => panic!("unexpected action {:?}", other),
    }
}

#[test]
fn test_segment_is_asked_for_by_the_player() {
    let player = WaspHlsPlayer::new(4);
    match player.test_seg_back_and_forth() {
        PlayerAction::FetchBytes(id, url) => {
            assert_eq!(id, 4);
            assert_eq!(url.to_string(), "http://127.0.0.1:8080/lowlat_vs_non_lowlat.mp4");
        }
        other => panic!("unexpected action {:?}", other),
    }
}
