//! The decisions of the player: what each call of its public interface does
//! to the player's state, and what it asks the host to do.
//!
//! The player performs nothing itself. Each call returns the actions that
//! the host has to carry out, in order.

use vstd::prelude::*;
use vstd::string::StringExecFns;
use crate::playlist::{MediaPlaylist, MediaPlaylistView};
use crate::url::Url;

verus! {

/// Names one player among those of a host.
pub type PlayerId = u32;

/// How far the player is with its content.
#[derive(Clone, Copy, Debug, PartialEq, Eq, Structural)]
pub enum WaspHlsPlayerReadyState {
    /// No content is loaded or being loaded.
    Stopped,
    /// Content was asked for and is being fetched.
    Loading,
}

/// What kind of playlist a fetched file is expected to be.
#[derive(Clone, Copy, Debug, PartialEq, Eq, Structural)]
pub enum PlaylistFileType {
    MultiVariantPlaylist,
    MediaPlaylist,
    /// Not known before the file is read.
    Unknown,
}

/// How much a message matters.
#[derive(Clone, Copy, Debug, PartialEq, Eq, Structural)]
pub enum LogLevel {
    Error,
    Warn,
    Info,
    Debug,
}

/// Something the host has to do for the player.
#[derive(Debug)]
pub enum PlayerAction {
    /// Fetch the playlist at the location and hand it back.
    FetchPlaylist(Url, PlaylistFileType),
    /// Attach a media source to the media element of the player.
    AttachMediaSource(PlayerId),
    /// Fetch the resource at the location as bytes, for the player.
    FetchBytes(PlayerId, Url),
    /// Write the message to the log that goes with its level.
    Log(LogLevel, String),
}

pub enum PlayerActionView {
    FetchPlaylist(Seq<char>, PlaylistFileType),
    AttachMediaSource(PlayerId),
    FetchBytes(PlayerId, Seq<char>),
    Log(LogLevel, Seq<char>),
}

impl View for PlayerAction {
    type V = PlayerActionView;

    open spec fn view(&self) -> PlayerActionView {
        match self {
            PlayerAction::FetchPlaylist(url, file_type) => PlayerActionView::FetchPlaylist(
                url@,
                *file_type,
            ),
            PlayerAction::AttachMediaSource(id) => PlayerActionView::AttachMediaSource(*id),
            PlayerAction::FetchBytes(id, url) => PlayerActionView::FetchBytes(*id, url@),
            PlayerAction::Log(level, message) => PlayerActionView::Log(*level, message@),
        }
    }
}

/// The views of a run of actions, in order.
pub open spec fn action_views(actions: Seq<PlayerAction>) -> Seq<PlayerActionView> {
    Seq::new(actions.len(), |i: int| actions[i]@)
}

/// How far ahead of the current position the player buffers when nothing
/// else is asked for, in microseconds.
pub const DEFAULT_BUFFER_GOAL: u64 = 30_000_000;

/// A player of one content at a time.
#[derive(Debug)]
pub struct WaspHlsPlayer {
    pub id: PlayerId,
    pub ready_state: WaspHlsPlayerReadyState,
    /// The playlist that is played, once it has been read.
    pub content: Option<MediaPlaylist>,
    /// The last position of playback that the host has told, in microseconds.
    pub last_position: u64,
    /// How far ahead of the position to buffer, in microseconds.
    pub buffer_goal: u64,
}

pub struct WaspHlsPlayerView {
    pub id: PlayerId,
    pub ready_state: WaspHlsPlayerReadyState,
    pub content: Option<MediaPlaylistView>,
    pub last_position: u64,
    pub buffer_goal: u64,
}

impl View for WaspHlsPlayer {
    type V = WaspHlsPlayerView;

    open spec fn view(&self) -> WaspHlsPlayerView {
        WaspHlsPlayerView {
            id: self.id,
            ready_state: self.ready_state,
            content: match self.content {
                Some(playlist) => Some(playlist@),
                None => None,
            },
            last_position: self.last_position,
            buffer_goal: self.buffer_goal,
        }
    }
}

impl WaspHlsPlayerView {
    /// The player after it was stopped: it holds no content and keeps its
    /// settings.
    pub open spec fn stopped(self) -> WaspHlsPlayerView {
        WaspHlsPlayerView {
            ready_state: WaspHlsPlayerReadyState::Stopped,
            content: None,
            ..self
        }
    }

    /// The player after it was told to load new content: what it held is
    /// dropped and it waits for the playlist.
    pub open spec fn loading(self) -> WaspHlsPlayerView {
        WaspHlsPlayerView { ready_state: WaspHlsPlayerReadyState::Loading, ..self.stopped() }
    }
}

/// What the host has to do when content at `content_url` is to be loaded:
/// fetch the playlist there, of a kind not known yet, then attach a media
/// source.
pub open spec fn load_actions(id: PlayerId, content_url: Seq<char>) -> Seq<PlayerActionView> {
    seq![
        PlayerActionView::FetchPlaylist(content_url, PlaylistFileType::Unknown),
        PlayerActionView::AttachMediaSource(id),
    ]
}

/// The location that `test_seg_back_and_forth` asks for.
pub open spec fn test_segment_url() -> Seq<char> {
    "http://127.0.0.1:8080/lowlat_vs_non_lowlat.mp4"@
}

impl WaspHlsPlayer {
    /// A stopped player without content.
    pub fn new(player_id: PlayerId) -> (out: WaspHlsPlayer)
        ensures
            out@ == (WaspHlsPlayerView {
                id: player_id,
                ready_state: WaspHlsPlayerReadyState::Stopped,
                content: None,
                last_position: 0,
                buffer_goal: 30_000_000,
            }),
    {
        WaspHlsPlayer {
            id: player_id,
            ready_state: WaspHlsPlayerReadyState::Stopped,
            content: None,
            last_position: 0,
            buffer_goal: DEFAULT_BUFFER_GOAL,
        }
    }

    /// Stops what is played, if anything, and starts loading the content
    /// at `content_url`.
    pub fn load_content(&mut self, content_url: String) -> (actions: Vec<PlayerAction>)
        ensures
            final(self)@ == old(self)@.loading(),
            action_views(actions@) == load_actions(old(self).id, content_url@),
    {
        self.stop();
        self.ready_state = WaspHlsPlayerReadyState::Loading;
        let mut actions: Vec<PlayerAction> = Vec::new();
        actions.push(PlayerAction::FetchPlaylist(Url::new(content_url), PlaylistFileType::Unknown));
        actions.push(PlayerAction::AttachMediaSource(self.id));
        assert(action_views(actions@) =~= load_actions(old(self).id, content_url@));
        actions
    }

    /// Stops what is played, if anything, and drops the content.
    pub fn stop(&mut self)
        ensures
            final(self)@ == old(self)@.stopped(),
    {
        self.ready_state = WaspHlsPlayerReadyState::Stopped;
        self.content = None;
    }

    /// Asks the host to log `msg` at the given level.
    pub fn log(level: LogLevel, msg: &str) -> (action: PlayerAction)
        ensures
            action@ == PlayerActionView::Log(level, msg@),
    {
        PlayerAction::Log(level, String::from_str(msg))
    }

    /// Asks the host for a fixed test resource.
    pub fn test_seg_back_and_forth(&self) -> (action: PlayerAction)
        ensures
            action@ == PlayerActionView::FetchBytes(self.id, test_segment_url()),
    {
        let url = String::from_str("http://127.0.0.1:8080/lowlat_vs_non_lowlat.mp4");
        PlayerAction::FetchBytes(self.id, Url::new(url))
    }
}

} // verus!
