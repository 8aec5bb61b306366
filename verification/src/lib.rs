//! Reading HTTP Live Streaming media playlists, and asking a playlist for
//! its timeline.
//!
//! [`MediaPlaylist::create`] reads a manifest in one pass over its lines.
//! What it returns is stated by [`parser::parse_playlist`]; what holds of
//! every playlist is stated and proved in [`laws`]. [`WaspHlsPlayer`] holds
//! the decisions of the player and leaves the doing to its host.

pub mod byte_range;
pub mod date;
pub mod laws;
pub mod parser;
pub mod player;
pub mod playlist;
pub mod primitives;
pub mod tag;
pub mod text;
pub mod url;

pub use byte_range::ByteRange;
pub use parser::ParserState;
pub use player::{
    LogLevel, PlayerAction, PlayerId, PlaylistFileType, WaspHlsPlayer, WaspHlsPlayerReadyState,
};
pub use playlist::{
    Anomaly, MapInfo, MediaPlaylist, MediaPlaylistParsingError, MediaType, PlaylistType,
    SegmentInfo, SegmentList, StartAttribute,
};
pub use url::Url;
