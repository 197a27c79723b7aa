//! The store: five collections of rows, its mathematical model, and the
//! invariants that every operation of the library preserves.

use crate::keys::{distinct_keys, find_row, first_position, keys_of, lemma_first_position};
use crate::model::{
    Playlist, PlaylistTrack, PlaylistTrackView, PlaylistView, Track, TrackView, User,
    UserFavorite, UserFavoriteView, UserView,
};
use vstd::prelude::*;
use vstd::string::*;

verus! {

/// Why an operation left the store as it was.
#[derive(Debug, Clone, Copy, PartialEq, Eq, Structural)]
pub enum StoreError {
    /// No track has the given id.
    TrackNotFound,
    /// No playlist has the given id.
    PlaylistNotFound,
    /// The id meant for a new row is already the key of a row of that kind.
    DuplicateId,
    /// The playlist already holds an entry at the largest position there is.
    PositionOverflow,
}

impl StoreError {
    /// The diagnostic for this error.
    pub open spec fn message_text(self) -> Seq<char> {
        match self {
            StoreError::TrackNotFound => "Track not found"@,
            StoreError::PlaylistNotFound => "Playlist not found"@,
            StoreError::DuplicateId => "Generated id is already in use"@,
            StoreError::PositionOverflow => "Playlist has no position left"@,
        }
    }

    /// The diagnostic for this error.
    pub fn message(&self) -> (text: String)
        ensures
            text@ == self.message_text(),
    {
        match self {
            StoreError::TrackNotFound => String::from_str("Track not found"),
            StoreError::PlaylistNotFound => String::from_str("Playlist not found"),
            StoreError::DuplicateId => String::from_str("Generated id is already in use"),
            StoreError::PositionOverflow => String::from_str("Playlist has no position left"),
        }
    }
}

/// The views of a sequence of rows, in order.
pub open spec fn views_of<T: View>(rows: Seq<T>) -> Seq<T::V> {
    Seq::new(rows.len(), |i: int| rows[i]@)
}

/// The five collections. Rows stand in the order in which they were
/// inserted.
#[derive(Debug, PartialEq, Eq)]
pub struct MusicStore {
    pub tracks: Vec<Track>,
    pub playlists: Vec<Playlist>,
    pub playlist_tracks: Vec<PlaylistTrack>,
    pub users: Vec<User>,
    pub user_favorites: Vec<UserFavorite>,
}

/// What a `MusicStore` holds, as plain mathematical values.
pub struct StoreView {
    pub tracks: Seq<TrackView>,
    pub playlists: Seq<PlaylistView>,
    pub playlist_tracks: Seq<PlaylistTrackView>,
    pub users: Seq<UserView>,
    pub user_favorites: Seq<UserFavoriteView>,
}

impl View for MusicStore {
    type V = StoreView;

    open spec fn view(&self) -> StoreView {
        StoreView {
            tracks: views_of(self.tracks@),
            playlists: views_of(self.playlists@),
            playlist_tracks: views_of(self.playlist_tracks@),
            users: views_of(self.users@),
            user_favorites: views_of(self.user_favorites@),
        }
    }
}

/// The ids of a sequence of tracks, in order.
pub open spec fn track_keys(tracks: Seq<TrackView>) -> Seq<Seq<char>> {
    Seq::new(tracks.len(), |i: int| tracks[i].id)
}

/// The track among `tracks` that a lookup by `id` resolves to: the first one
/// with that id.
pub open spec fn resolve(tracks: Seq<TrackView>, id: Seq<char>) -> Option<TrackView> {
    match first_position(track_keys(tracks), id) {
        Some(i) => Some(tracks[i]),
        None => None,
    }
}

impl StoreView {
    /// The store with no rows at all.
    pub open spec fn empty() -> StoreView {
        StoreView {
            tracks: Seq::empty(),
            playlists: Seq::empty(),
            playlist_tracks: Seq::empty(),
            users: Seq::empty(),
            user_favorites: Seq::empty(),
        }
    }

    pub open spec fn track_ids(self) -> Seq<Seq<char>> {
        track_keys(self.tracks)
    }

    pub open spec fn playlist_ids(self) -> Seq<Seq<char>> {
        Seq::new(self.playlists.len(), |i: int| self.playlists[i].id)
    }

    pub open spec fn entry_ids(self) -> Seq<Seq<char>> {
        Seq::new(self.playlist_tracks.len(), |i: int| self.playlist_tracks[i].id)
    }

    pub open spec fn user_ids(self) -> Seq<Seq<char>> {
        Seq::new(self.users.len(), |i: int| self.users[i].id)
    }

    pub open spec fn favorite_ids(self) -> Seq<Seq<char>> {
        Seq::new(self.user_favorites.len(), |i: int| self.user_favorites[i].id)
    }

    /// Whether some track has the id `id`.
    pub open spec fn has_track(self, id: Seq<char>) -> bool {
        self.track_ids().contains(id)
    }

    /// Whether some playlist has the id `id`.
    pub open spec fn has_playlist(self, id: Seq<char>) -> bool {
        self.playlist_ids().contains(id)
    }

    /// Whether some playlist entry has the id `id`.
    pub open spec fn has_entry(self, id: Seq<char>) -> bool {
        self.entry_ids().contains(id)
    }

    /// Whether some user has the id `id`.
    pub open spec fn has_user(self, id: Seq<char>) -> bool {
        self.user_ids().contains(id)
    }

    /// Whether some favorite row has the id `id`.
    pub open spec fn has_favorite_id(self, id: Seq<char>) -> bool {
        self.favorite_ids().contains(id)
    }

    /// The track that a lookup by `id` resolves to: the first one with that
    /// id.
    pub open spec fn track(self, id: Seq<char>) -> Option<TrackView> {
        resolve(self.tracks, id)
    }

    /// Whether `user` has `track` among their favorites.
    pub open spec fn is_favorite(self, user: Seq<char>, track: Seq<char>) -> bool {
        exists|i: int|
            0 <= i < self.user_favorites.len() && (#[trigger] self.user_favorites[i]).user_id
                == user && self.user_favorites[i].track_id == track
    }

    /// Primary keys are unique within each collection.
    pub open spec fn keys_distinct(self) -> bool {
        &&& distinct_keys(self.track_ids())
        &&& distinct_keys(self.playlist_ids())
        &&& distinct_keys(self.entry_ids())
        &&& distinct_keys(self.user_ids())
        &&& distinct_keys(self.favorite_ids())
    }

    /// Positions start at 1 and no two entries of one playlist share one.
    pub open spec fn positions_distinct(self) -> bool {
        &&& forall|i: int|
            0 <= i < self.playlist_tracks.len() ==> (#[trigger] self.playlist_tracks[i]).position
                >= 1
        &&& forall|i: int, j: int|
            0 <= i < j < self.playlist_tracks.len() && (#[trigger] self.playlist_tracks[i]).playlist_id
                == (#[trigger] self.playlist_tracks[j]).playlist_id
                ==> self.playlist_tracks[i].position != self.playlist_tracks[j].position
    }

    /// At most one favorite row exists per pair of user and track.
    pub open spec fn favorites_distinct(self) -> bool {
        forall|i: int, j: int|
            0 <= i < j < self.user_favorites.len() ==> !((
            #[trigger] self.user_favorites[i]).user_id == (#[trigger] self.user_favorites[j]).user_id
                && self.user_favorites[i].track_id == self.user_favorites[j].track_id)
    }

    /// Every playlist entry names a playlist and a track that exist, and
    /// every favorite names a track that exists.
    pub open spec fn references_resolve(self) -> bool {
        &&& forall|i: int|
            0 <= i < self.playlist_tracks.len() ==> self.has_playlist(
                (#[trigger] self.playlist_tracks[i]).playlist_id,
            ) && self.has_track(self.playlist_tracks[i].track_id)
        &&& forall|i: int|
            0 <= i < self.user_favorites.len() ==> self.has_track(
                (#[trigger] self.user_favorites[i]).track_id,
            )
    }

    /// The invariants of a consistent store.
    pub open spec fn wf(self) -> bool {
        &&& self.keys_distinct()
        &&& self.positions_distinct()
        &&& self.favorites_distinct()
        &&& self.references_resolve()
    }
}

impl MusicStore {
    /// A store with no rows.
    pub fn new() -> (store: MusicStore)
        ensures
            store@ == StoreView::empty(),
            store@.wf(),
    {
        let store = MusicStore {
            tracks: Vec::new(),
            playlists: Vec::new(),
            playlist_tracks: Vec::new(),
            users: Vec::new(),
            user_favorites: Vec::new(),
        };
        assert(store@.tracks =~= Seq::empty());
        assert(store@.playlists =~= Seq::empty());
        assert(store@.playlist_tracks =~= Seq::empty());
        assert(store@.users =~= Seq::empty());
        assert(store@.user_favorites =~= Seq::empty());
        store
    }

    /// The index of the track that a lookup by `id` resolves to.
    pub fn find_track(&self, id: &String) -> (found: Option<usize>)
        ensures
            match found {
                Some(i) => first_position(self@.track_ids(), id@) == Some(i as int) && i
                    < self.tracks.len(),
                None => !self@.has_track(id@),
            },
    {
        proof {
            assert(keys_of(self.tracks@) =~= self@.track_ids());
            lemma_first_position(self@.track_ids(), id@);
        }
        find_row(&self.tracks, id)
    }

    /// A copy of the track that a lookup by `id` resolves to.
    pub fn get_track(&self, id: &String) -> (found: Option<Track>)
        ensures
            match found {
                Some(t) => self@.track(id@) == Some(t@),
                None => self@.track(id@) is None && !self@.has_track(id@),
            },
    {
        match self.find_track(id) {
            Some(i) => Some(self.tracks[i].clone()),
            None => {
                proof {
                    lemma_first_position(self@.track_ids(), id@);
                }
                None
            },
        }
    }

    /// Whether some track has the id `id`.
    pub fn has_track(&self, id: &String) -> (found: bool)
        ensures
            found == self@.has_track(id@),
    {
        proof {
            lemma_first_position(self@.track_ids(), id@);
        }
        self.find_track(id).is_some()
    }

    /// Whether some playlist has the id `id`.
    pub fn has_playlist(&self, id: &String) -> (found: bool)
        ensures
            found == self@.has_playlist(id@),
    {
        proof {
            assert(keys_of(self.playlists@) =~= self@.playlist_ids());
            lemma_first_position(self@.playlist_ids(), id@);
        }
        find_row(&self.playlists, id).is_some()
    }

    /// Whether some playlist entry has the id `id`.
    pub fn has_entry(&self, id: &String) -> (found: bool)
        ensures
            found == self@.has_entry(id@),
    {
        proof {
            assert(keys_of(self.playlist_tracks@) =~= self@.entry_ids());
            lemma_first_position(self@.entry_ids(), id@);
        }
        find_row(&self.playlist_tracks, id).is_some()
    }

    /// Whether some user has the id `id`.
    pub fn has_user(&self, id: &String) -> (found: bool)
        ensures
            found == self@.has_user(id@),
    {
        proof {
            assert(keys_of(self.users@) =~= self@.user_ids());
            lemma_first_position(self@.user_ids(), id@);
        }
        find_row(&self.users, id).is_some()
    }

    /// Whether some favorite row has the id `id`.
    pub fn has_favorite_id(&self, id: &String) -> (found: bool)
        ensures
            found == self@.has_favorite_id(id@),
    {
        proof {
            assert(keys_of(self.user_favorites@) =~= self@.favorite_ids());
            lemma_first_position(self@.favorite_ids(), id@);
        }
        find_row(&self.user_favorites, id).is_some()
    }

    /// Whether `user` has `track` among their favorites.
    pub fn is_favorite(&self, user: &String, track: &String) -> (found: bool)
        ensures
            found == self@.is_favorite(user@, track@),
    {
        let mut i: usize = 0;
        while i < self.user_favorites.len()
            invariant
                i <= self.user_favorites.len(),
                forall|j: int|
                    0 <= j < i ==> !((#[trigger] self@.user_favorites[j]).user_id == user@
                        && self@.user_favorites[j].track_id == track@),
            decreases self.user_favorites.len() - i,
        {
            let row = &self.user_favorites[i];
            if row.user_id == *user && row.track_id == *track {
                assert(self@.user_favorites[i as int].user_id == user@);
                return true;
            }
            i += 1;
        }
        false
    }
}

} // verus!
