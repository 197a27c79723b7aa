//! A music-library metadata store: tracks, playlists, ordered playlist
//! membership, users and per-user favorites, with the operations that keep
//! those five collections consistent with each other.
//!
//! Every operation works on a [`MusicStore`] and is specified over its
//! mathematical view: which rows the store holds afterwards, what is
//! returned, and that the invariants of a consistent store survive.

pub mod catalog;
pub mod config;
pub mod favorites;
pub mod ids;
pub mod keys;
pub mod model;
pub mod order;
pub mod playlists;
pub mod seqs;
pub mod stats;
pub mod store;
pub mod text;
pub mod users;

pub use catalog::{add_track, delete_track, list_tracks, search_tracks, update_track_metadata};
pub use favorites::{add_to_favorites, get_favorite_tracks, remove_from_favorites};
pub use ids::current_timestamp;
pub use model::{Playlist, PlaylistTrack, Track, User, UserFavorite};
pub use playlists::{add_track_to_playlist, create_playlist, get_playlist_tracks};
pub use stats::get_stats;
pub use store::{MusicStore, StoreError};
pub use users::identity_connected;
