//! The five kinds of row the store holds, and the mathematical value each
//! one stands for.

use vstd::prelude::*;

verus! {

/// The view of an optional string.
pub open spec fn optional_text(text: Option<String>) -> Option<Seq<char>> {
    match text {
        Some(t) => Some(t@),
        None => None,
    }
}

/// Copies an optional string.
pub fn copy_optional_text(text: &Option<String>) -> (copy: Option<String>)
    ensures
        copy == *text,
{
    match text {
        Some(t) => Some(t.clone()),
        None => None,
    }
}

/// A row that is found by a textual primary key.
pub trait Keyed {
    /// The primary key of the row.
    spec fn key(&self) -> Seq<char>;

    /// The primary key of the row, as stored.
    fn key_text(&self) -> (k: &String)
        ensures
            k@ == self.key(),
    ;
}

/// An audio file known to the library.
#[derive(Debug, PartialEq, Eq)]
pub struct Track {
    pub id: String,
    pub title: String,
    pub artist: String,
    pub album: String,
    pub genre: Option<String>,
    pub year: Option<u16>,
    pub duration_seconds: u32,
    pub file_path: String,
    pub file_size_bytes: u64,
    pub date_added: u64,
}

/// What a `Track` holds, as plain mathematical values.
pub struct TrackView {
    pub id: Seq<char>,
    pub title: Seq<char>,
    pub artist: Seq<char>,
    pub album: Seq<char>,
    pub genre: Option<Seq<char>>,
    pub year: Option<u16>,
    pub duration_seconds: u32,
    pub file_path: Seq<char>,
    pub file_size_bytes: u64,
    pub date_added: u64,
}

impl View for Track {
    type V = TrackView;

    open spec fn view(&self) -> TrackView {
        TrackView {
            id: self.id@,
            title: self.title@,
            artist: self.artist@,
            album: self.album@,
            genre: optional_text(self.genre),
            year: self.year,
            duration_seconds: self.duration_seconds,
            file_path: self.file_path@,
            file_size_bytes: self.file_size_bytes,
            date_added: self.date_added,
        }
    }
}

impl Clone for Track {
    fn clone(&self) -> (copy: Self)
        ensures
            copy == *self,
    {
        Track {
            id: self.id.clone(),
            title: self.title.clone(),
            artist: self.artist.clone(),
            album: self.album.clone(),
            genre: copy_optional_text(&self.genre),
            year: self.year,
            duration_seconds: self.duration_seconds,
            file_path: self.file_path.clone(),
            file_size_bytes: self.file_size_bytes,
            date_added: self.date_added,
        }
    }
}

impl Keyed for Track {
    open spec fn key(&self) -> Seq<char> {
        self.id@
    }

    fn key_text(&self) -> (k: &String) {
        &self.id
    }
}

/// A named, owned list of tracks.
#[derive(Debug, PartialEq, Eq)]
pub struct Playlist {
    pub id: String,
    pub name: String,
    pub owner_id: String,
    pub description: Option<String>,
    pub date_created: u64,
    pub is_public: bool,
}

/// What a `Playlist` holds, as plain mathematical values.
pub struct PlaylistView {
    pub id: Seq<char>,
    pub name: Seq<char>,
    pub owner_id: Seq<char>,
    pub description: Option<Seq<char>>,
    pub date_created: u64,
    pub is_public: bool,
}

impl View for Playlist {
    type V = PlaylistView;

    open spec fn view(&self) -> PlaylistView {
        PlaylistView {
            id: self.id@,
            name: self.name@,
            owner_id: self.owner_id@,
            description: optional_text(self.description),
            date_created: self.date_created,
            is_public: self.is_public,
        }
    }
}

impl Clone for Playlist {
    fn clone(&self) -> (copy: Self)
        ensures
            copy == *self,
    {
        Playlist {
            id: self.id.clone(),
            name: self.name.clone(),
            owner_id: self.owner_id.clone(),
            description: copy_optional_text(&self.description),
            date_created: self.date_created,
            is_public: self.is_public,
        }
    }
}

impl Keyed for Playlist {
    open spec fn key(&self) -> Seq<char> {
        self.id@
    }

    fn key_text(&self) -> (k: &String) {
        &self.id
    }
}

/// One membership edge: a track at a position of a playlist.
#[derive(Debug, PartialEq, Eq)]
pub struct PlaylistTrack {
    pub id: String,
    pub playlist_id: String,
    pub track_id: String,
    pub position: u32,
    pub date_added: u64,
}

/// What a `PlaylistTrack` holds, as plain mathematical values.
pub struct PlaylistTrackView {
    pub id: Seq<char>,
    pub playlist_id: Seq<char>,
    pub track_id: Seq<char>,
    pub position: u32,
    pub date_added: u64,
}

impl View for PlaylistTrack {
    type V = PlaylistTrackView;

    open spec fn view(&self) -> PlaylistTrackView {
        PlaylistTrackView {
            id: self.id@,
            playlist_id: self.playlist_id@,
            track_id: self.track_id@,
            position: self.position,
            date_added: self.date_added,
        }
    }
}

impl Clone for PlaylistTrack {
    fn clone(&self) -> (copy: Self)
        ensures
            copy == *self,
    {
        PlaylistTrack {
            id: self.id.clone(),
            playlist_id: self.playlist_id.clone(),
            track_id: self.track_id.clone(),
            position: self.position,
            date_added: self.date_added,
        }
    }
}

impl Keyed for PlaylistTrack {
    open spec fn key(&self) -> Seq<char> {
        self.id@
    }

    fn key_text(&self) -> (k: &String) {
        &self.id
    }
}

/// A caller that has been seen at least once.
#[derive(Debug, PartialEq, Eq)]
pub struct User {
    pub id: String,
    pub username: String,
    pub date_joined: u64,
}

/// What a `User` holds, as plain mathematical values.
pub struct UserView {
    pub id: Seq<char>,
    pub username: Seq<char>,
    pub date_joined: u64,
}

impl View for User {
    type V = UserView;

    open spec fn view(&self) -> UserView {
        UserView { id: self.id@, username: self.username@, date_joined: self.date_joined }
    }
}

impl Clone for User {
    fn clone(&self) -> (copy: Self)
        ensures
            copy == *self,
    {
        User {
            id: self.id.clone(),
            username: self.username.clone(),
            date_joined: self.date_joined,
        }
    }
}

impl Keyed for User {
    open spec fn key(&self) -> Seq<char> {
        self.id@
    }

    fn key_text(&self) -> (k: &String) {
        &self.id
    }
}

/// One favorite edge: a user likes a track.
#[derive(Debug, PartialEq, Eq)]
pub struct UserFavorite {
    pub id: String,
    pub user_id: String,
    pub track_id: String,
    pub date_added: u64,
}

/// What a `UserFavorite` holds, as plain mathematical values.
pub struct UserFavoriteView {
    pub id: Seq<char>,
    pub user_id: Seq<char>,
    pub track_id: Seq<char>,
    pub date_added: u64,
}

impl View for UserFavorite {
    type V = UserFavoriteView;

    open spec fn view(&self) -> UserFavoriteView {
        UserFavoriteView {
            id: self.id@,
            user_id: self.user_id@,
            track_id: self.track_id@,
            date_added: self.date_added,
        }
    }
}

impl Clone for UserFavorite {
    fn clone(&self) -> (copy: Self)
        ensures
            copy == *self,
    {
        UserFavorite {
            id: self.id.clone(),
            user_id: self.user_id.clone(),
            track_id: self.track_id.clone(),
            date_added: self.date_added,
        }
    }
}

impl Keyed for UserFavorite {
    open spec fn key(&self) -> Seq<char> {
        self.id@
    }

    fn key_text(&self) -> (k: &String) {
        &self.id
    }
}

} // verus!
