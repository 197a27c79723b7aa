//! The catalog: adding, listing, searching, revising and deleting tracks.
//! Deleting a track also deletes every playlist entry and every favorite
//! that names it.

use crate::ids::{current_timestamp, generate_id, holds_generated_id, is_generated_id};
use crate::keys::{
    distinct_keys, first_position, lemma_first_position, lemma_first_position_unique,
};
use crate::model::{
    optional_text, PlaylistTrack, PlaylistTrackView, Track, TrackView, UserFavorite,
    UserFavoriteView,
};
use crate::seqs::{lemma_filter_members, lemma_filter_pairwise, pairwise};
use crate::store::{views_of, MusicStore, StoreError, StoreView};
use crate::text::{contains_text, lowercase_of, occurs_in, to_lowercase};
use vstd::prelude::*;

verus! {

/// Whether `needle` occurs in the title, the artist, the album or, if there
/// is one, the genre.
pub open spec fn fields_contain(
    title: Seq<char>,
    artist: Seq<char>,
    album: Seq<char>,
    genre: Option<Seq<char>>,
    needle: Seq<char>,
) -> bool {
    ||| occurs_in(needle, title)
    ||| occurs_in(needle, artist)
    ||| occurs_in(needle, album)
    ||| (genre matches Some(g) && occurs_in(needle, g))
}

/// The lower-case form of an optional text.
pub open spec fn lowered(text: Option<Seq<char>>) -> Option<Seq<char>> {
    match text {
        Some(t) => Some(lowercase_of(t)),
        None => None,
    }
}

/// Whether `track` matches `query`: the query occurs in one of the track's
/// text fields, letter case aside.
pub open spec fn track_matches(track: TrackView, query: Seq<char>) -> bool {
    fields_contain(
        lowercase_of(track.title),
        lowercase_of(track.artist),
        lowercase_of(track.album),
        lowered(track.genre),
        lowercase_of(query),
    )
}

/// The tracks that match `query`.
pub open spec fn matching(query: Seq<char>) -> spec_fn(TrackView) -> bool {
    |track: TrackView| track_matches(track, query)
}

/// The tracks with another id than `id`.
pub open spec fn track_is_not(id: Seq<char>) -> spec_fn(TrackView) -> bool {
    |track: TrackView| track.id != id
}

/// The playlist entries that name another track than `id`.
pub open spec fn entry_avoids(id: Seq<char>) -> spec_fn(PlaylistTrackView) -> bool {
    |entry: PlaylistTrackView| entry.track_id != id
}

/// The favorites that name another track than `id`.
pub open spec fn favorite_avoids(id: Seq<char>) -> spec_fn(UserFavoriteView) -> bool {
    |favorite: UserFavoriteView| favorite.track_id != id
}

/// `track` with the metadata of an update applied: a title, artist or album
/// that is given replaces the old one and one that is absent leaves it;
/// genre and year are replaced by what is given, present or absent.
pub open spec fn revised(
    track: TrackView,
    title: Option<Seq<char>>,
    artist: Option<Seq<char>>,
    album: Option<Seq<char>>,
    genre: Option<Seq<char>>,
    year: Option<u16>,
) -> TrackView {
    TrackView {
        title: match title {
            Some(t) => t,
            None => track.title,
        },
        artist: match artist {
            Some(a) => a,
            None => track.artist,
        },
        album: match album {
            Some(a) => a,
            None => track.album,
        },
        genre,
        year,
        ..track
    }
}

impl StoreView {
    /// The store with one more track at the end.
    pub open spec fn with_track(self, track: TrackView) -> StoreView {
        StoreView { tracks: self.tracks.push(track), ..self }
    }

    /// What a search for `query` returns: every track for the empty query,
    /// else the tracks that match it, in the order they are stored.
    pub open spec fn search(self, query: Seq<char>) -> Seq<TrackView> {
        if query.len() == 0 {
            self.tracks
        } else {
            self.tracks.filter(matching(query))
        }
    }

    /// The store after a metadata update of the track that `id` resolves to.
    pub open spec fn updated(
        self,
        id: Seq<char>,
        title: Option<Seq<char>>,
        artist: Option<Seq<char>>,
        album: Option<Seq<char>>,
        genre: Option<Seq<char>>,
        year: Option<u16>,
    ) -> StoreView {
        match first_position(self.track_ids(), id) {
            Some(i) => StoreView {
                tracks: self.tracks.update(
                    i,
                    revised(self.tracks[i], title, artist, album, genre, year),
                ),
                ..self
            },
            None => self,
        }
    }

    /// The store without the track `id` and without the playlist entries and
    /// favorites that name it.
    pub open spec fn without_track(self, id: Seq<char>) -> StoreView {
        StoreView {
            tracks: self.tracks.filter(track_is_not(id)),
            playlist_tracks: self.playlist_tracks.filter(entry_avoids(id)),
            user_favorites: self.user_favorites.filter(favorite_avoids(id)),
            ..self
        }
    }
}

/// A store that gains a track still resolves every reference it resolved
/// before.
proof fn lemma_more_tracks_keep_references(s: StoreView, track: TrackView)
    requires
        s.references_resolve(),
    ensures
        s.with_track(track).references_resolve(),
{
    let t = s.with_track(track);
    assert forall|id: Seq<char>| s.has_track(id) implies t.has_track(id) by {
        let k = choose|k: int| 0 <= k < s.track_ids().len() && s.track_ids()[k] == id;
        assert(t.track_ids()[k] == id);
    }
}

/// Adds `track` to the store, unless its id is taken. A track that was added
/// is what a lookup by its id then resolves to.
pub fn insert_track(store: &mut MusicStore, track: Track) -> (outcome: Result<(), StoreError>)
    ensures
        outcome == if old(store)@.has_track(track@.id) {
            Err::<(), StoreError>(StoreError::DuplicateId)
        } else {
            Ok(())
        },
        final(store)@ == if outcome is Ok {
            old(store)@.with_track(track@)
        } else {
            old(store)@
        },
        outcome is Ok ==> final(store)@.track(track@.id) == Some(track@),
        old(store)@.wf() ==> final(store)@.wf(),
{
    if store.has_track(&track.id) {
        return Err(StoreError::DuplicateId);
    }
    store.tracks.push(track);
    proof {
        assert(final(store)@.tracks =~= old(store)@.tracks.push(track@));
        lemma_added_track_is_found(old(store)@, track@);
        if old(store)@.wf() {
            assert(final(store)@.track_ids() =~= old(store)@.track_ids().push(track@.id));
            lemma_more_tracks_keep_references(old(store)@, track@);
        }
    }
    Ok(())
}

/// A track added under an id that no track had is what a lookup by that id
/// resolves to, with every field as it was given.
pub proof fn lemma_added_track_is_found(s: StoreView, track: TrackView)
    requires
        !s.has_track(track.id),
    ensures
        s.with_track(track).track(track.id) == Some(track),
{
    let after = s.with_track(track);
    assert(after.track_ids() =~= s.track_ids().push(track.id));
    assert forall|j: int| 0 <= j < s.tracks.len() implies #[trigger] after.track_ids()[j]
        != track.id by {
        assert(s.track_ids()[j] == after.track_ids()[j]);
    }
    lemma_first_position_unique(after.track_ids(), track.id, s.tracks.len() as int);
}

/// Adds a track under a freshly generated id, with the present time as the
/// date it was added, and returns the id.
pub fn add_track(
    store: &mut MusicStore,
    title: String,
    artist: String,
    album: String,
    genre: Option<String>,
    year: Option<u16>,
    duration_seconds: u32,
    file_path: String,
    file_size_bytes: u64,
) -> (outcome: Result<String, StoreError>)
    ensures
        match outcome {
            Ok(id) => {
                let added = TrackView {
                    id: id@,
                    title: title@,
                    artist: artist@,
                    album: album@,
                    genre: optional_text(genre),
                    year,
                    duration_seconds,
                    file_path: file_path@,
                    file_size_bytes,
                    date_added: final(store)@.tracks.last().date_added,
                };
                &&& is_generated_id(id@)
                &&& !old(store)@.has_track(id@)
                &&& final(store)@ == old(store)@.with_track(added)
                &&& final(store)@.track(id@) == Some(added)
            },
            Err(e) => {
                &&& e == StoreError::DuplicateId
                &&& holds_generated_id(old(store)@.track_ids())
                &&& final(store)@ == old(store)@
            },
        },
        old(store)@.wf() ==> final(store)@.wf(),
{
    let id = generate_id();
    let returned = id.clone();
    proof {
        if store@.has_track(id@) {
            let k = choose|k: int| 0 <= k < store@.track_ids().len() && store@.track_ids()[k] == id@;
            assert(is_generated_id(store@.track_ids()[k]));
        }
    }
    let track = Track {
        id,
        title,
        artist,
        album,
        genre,
        year,
        duration_seconds,
        file_path,
        file_size_bytes,
        date_added: current_timestamp(),
    };
    match insert_track(store, track) {
        Ok(()) => Ok(returned),
        Err(e) => Err(e),
    }
}

/// Copies of all tracks, in the order they are stored.
pub fn list_tracks(store: &MusicStore) -> (tracks: Vec<Track>)
    ensures
        views_of(tracks@) == store@.tracks,
{
    let mut tracks: Vec<Track> = Vec::new();
    let mut i: usize = 0;
    while i < store.tracks.len()
        invariant
            i <= store.tracks.len(),
            views_of(tracks@) == store@.tracks.take(i as int),
        decreases store.tracks.len() - i,
    {
        let ghost before = views_of(tracks@);
        tracks.push(store.tracks[i].clone());
        assert(views_of(tracks@) =~= before.push(store@.tracks[i as int]));
        assert(store@.tracks.take(i + 1) =~= before.push(store@.tracks[i as int]));
        i += 1;
    }
    proof {
        assert(store@.tracks.take(store.tracks.len() as int) =~= store@.tracks);
    }
    tracks
}

/// Whether `needle` occurs in one of the given fields, which a caller has
/// brought to lower case already.
pub fn folded_fields_contain(
    title: &String,
    artist: &String,
    album: &String,
    genre: &Option<String>,
    needle: &String,
) -> (found: bool)
    ensures
        found == fields_contain(title@, artist@, album@, optional_text(*genre), needle@),
{
    contains_text(title, needle) || contains_text(artist, needle) || contains_text(album, needle)
        || match genre {
        Some(g) => contains_text(g, needle),
        None => false,
    }
}

/// Whether `track` matches a query whose lower-case form is `needle`.
fn track_contains(track: &Track, needle: &String) -> (found: bool)
    ensures
        found == fields_contain(
            lowercase_of(track@.title),
            lowercase_of(track@.artist),
            lowercase_of(track@.album),
            lowered(track@.genre),
            needle@,
        ),
{
    let title = to_lowercase(&track.title);
    let artist = to_lowercase(&track.artist);
    let album = to_lowercase(&track.album);
    let genre = match &track.genre {
        Some(g) => Some(to_lowercase(g)),
        None => None,
    };
    folded_fields_contain(&title, &artist, &album, &genre, needle)
}

/// Finds the tracks in whose title, artist, album or genre the query occurs,
/// letter case aside. The empty query finds every track.
pub fn search_tracks(store: &MusicStore, query: String) -> (found: Vec<Track>)
    ensures
        views_of(found@) == store@.search(query@),
{
    if query.as_str().is_empty() {
        return list_tracks(store);
    }
    let needle = to_lowercase(&query);
    let ghost all = store@.tracks;
    let mut found: Vec<Track> = Vec::new();
    let mut i: usize = 0;
    assert(all.take(0) =~= Seq::empty());
    assert(views_of(found@) =~= Seq::empty());
    while i < store.tracks.len()
        invariant
            i <= store.tracks.len(),
            all == store@.tracks,
            needle@ == lowercase_of(query@),
            views_of(found@) == all.take(i as int).filter(matching(query@)),
        decreases store.tracks.len() - i,
    {
        let track = &store.tracks[i];
        proof {
            assert(all.take(i + 1) =~= all.take(i as int).push(track@));
            all.take(i as int).lemma_filter_push(track@, matching(query@));
        }
        if track_contains(track, &needle) {
            let ghost before = views_of(found@);
            found.push(track.clone());
            assert(views_of(found@) =~= before.push(track@));
        }
        i += 1;
    }
    proof {
        assert(all.take(store.tracks.len() as int) =~= all);
    }
    found
}

/// Revises the metadata of a track. A title, artist or album that is given
/// replaces the old one and one that is absent leaves it; genre and year are
/// replaced by what is given, so an absent one clears the field.
pub fn update_track_metadata(
    store: &mut MusicStore,
    track_id: String,
    title: Option<String>,
    artist: Option<String>,
    album: Option<String>,
    genre: Option<String>,
    year: Option<u16>,
) -> (outcome: Result<(), StoreError>)
    ensures
        outcome == if old(store)@.has_track(track_id@) {
            Ok::<(), StoreError>(())
        } else {
            Err(StoreError::TrackNotFound)
        },
        final(store)@ == old(store)@.updated(
            track_id@,
            optional_text(title),
            optional_text(artist),
            optional_text(album),
            optional_text(genre),
            year,
        ),
        outcome is Ok ==> final(store)@.track(track_id@) == Some(
            revised(
                old(store)@.track(track_id@)->0,
                optional_text(title),
                optional_text(artist),
                optional_text(album),
                optional_text(genre),
                year,
            ),
        ),
        old(store)@.wf() ==> final(store)@.wf(),
{
    proof {
        lemma_first_position(store@.track_ids(), track_id@);
    }
    match store.find_track(&track_id) {
        None => Err(StoreError::TrackNotFound),
        Some(i) => {
            let current = &store.tracks[i];
            let replacement = Track {
                id: current.id.clone(),
                title: match title {
                    Some(t) => t,
                    None => current.title.clone(),
                },
                artist: match artist {
                    Some(a) => a,
                    None => current.artist.clone(),
                },
                album: match album {
                    Some(a) => a,
                    None => current.album.clone(),
                },
                genre,
                year,
                duration_seconds: current.duration_seconds,
                file_path: current.file_path.clone(),
                file_size_bytes: current.file_size_bytes,
                date_added: current.date_added,
            };
            store.tracks.set(i, replacement);
            proof {
                assert(final(store)@.tracks =~= old(store)@.tracks.update(
                    i as int,
                    replacement@,
                ));
                assert(final(store)@.track_ids() =~= old(store)@.track_ids());
            }
            Ok(())
        },
    }
}

/// An update that gives only a title changes only the title, apart from
/// genre and year; genre and year are what the update gives, so an update
/// that gives none clears them, whatever else it gives or leaves out.
pub proof fn lemma_update_is_partial_for_text_and_full_for_genre_and_year(
    track: TrackView,
    title: Seq<char>,
    artist: Option<Seq<char>>,
    album: Option<Seq<char>>,
    genre: Option<Seq<char>>,
    year: Option<u16>,
)
    ensures
        revised(track, Some(title), None, None, genre, year) == (TrackView {
            title,
            genre,
            year,
            ..track
        }),
        revised(track, None, None, None, None, None) == (TrackView {
            genre: None,
            year: None,
            ..track
        }),
        revised(track, None, artist, album, None, year).genre is None,
        revised(track, None, artist, album, None, year).title == track.title,
        revised(track, None, None, album, genre, year).artist == track.artist,
        revised(track, None, artist, None, genre, year).album == track.album,
{
}

/// The tracks with another id than `id`.
fn tracks_without(tracks: &Vec<Track>, id: &String) -> (kept: Vec<Track>)
    ensures
        views_of(kept@) == views_of(tracks@).filter(track_is_not(id@)),
{
    let ghost all = views_of(tracks@);
    let mut kept: Vec<Track> = Vec::new();
    let mut i: usize = 0;
    assert(all.take(0) =~= Seq::empty());
    assert(views_of(kept@) =~= Seq::empty());
    while i < tracks.len()
        invariant
            i <= tracks.len(),
            all == views_of(tracks@),
            views_of(kept@) == all.take(i as int).filter(track_is_not(id@)),
        decreases tracks.len() - i,
    {
        let track = &tracks[i];
        proof {
            assert(all.take(i + 1) =~= all.take(i as int).push(track@));
            all.take(i as int).lemma_filter_push(track@, track_is_not(id@));
        }
        if !(track.id == *id) {
            let ghost before = views_of(kept@);
            kept.push(track.clone());
            assert(views_of(kept@) =~= before.push(track@));
        }
        i += 1;
    }
    proof {
        assert(all.take(tracks.len() as int) =~= all);
    }
    kept
}

/// The playlist entries that name another track than `id`.
fn entries_without(entries: &Vec<PlaylistTrack>, id: &String) -> (kept: Vec<PlaylistTrack>)
    ensures
        views_of(kept@) == views_of(entries@).filter(entry_avoids(id@)),
{
    let ghost all = views_of(entries@);
    let mut kept: Vec<PlaylistTrack> = Vec::new();
    let mut i: usize = 0;
    assert(all.take(0) =~= Seq::empty());
    assert(views_of(kept@) =~= Seq::empty());
    while i < entries.len()
        invariant
            i <= entries.len(),
            all == views_of(entries@),
            views_of(kept@) == all.take(i as int).filter(entry_avoids(id@)),
        decreases entries.len() - i,
    {
        let entry = &entries[i];
        proof {
            assert(all.take(i + 1) =~= all.take(i as int).push(entry@));
            all.take(i as int).lemma_filter_push(entry@, entry_avoids(id@));
        }
        if !(entry.track_id == *id) {
            let ghost before = views_of(kept@);
            kept.push(entry.clone());
            assert(views_of(kept@) =~= before.push(entry@));
        }
        i += 1;
    }
    proof {
        assert(all.take(entries.len() as int) =~= all);
    }
    kept
}

/// The favorites that name another track than `id`.
fn favorites_without(favorites: &Vec<UserFavorite>, id: &String) -> (kept: Vec<UserFavorite>)
    ensures
        views_of(kept@) == views_of(favorites@).filter(favorite_avoids(id@)),
{
    let ghost all = views_of(favorites@);
    let mut kept: Vec<UserFavorite> = Vec::new();
    let mut i: usize = 0;
    assert(all.take(0) =~= Seq::empty());
    assert(views_of(kept@) =~= Seq::empty());
    while i < favorites.len()
        invariant
            i <= favorites.len(),
            all == views_of(favorites@),
            views_of(kept@) == all.take(i as int).filter(favorite_avoids(id@)),
        decreases favorites.len() - i,
    {
        let favorite = &favorites[i];
        proof {
            assert(all.take(i + 1) =~= all.take(i as int).push(favorite@));
            all.take(i as int).lemma_filter_push(favorite@, favorite_avoids(id@));
        }
        if !(favorite.track_id == *id) {
            let ghost before = views_of(kept@);
            kept.push(favorite.clone());
            assert(views_of(kept@) =~= before.push(favorite@));
        }
        i += 1;
    }
    proof {
        assert(all.take(favorites.len() as int) =~= all);
    }
    kept
}

/// Deletes a track together with every playlist entry and every favorite
/// that names it. Nothing else changes, and nothing changes at all if no
/// track has the id.
pub fn delete_track(store: &mut MusicStore, track_id: String) -> (outcome: Result<(), StoreError>)
    ensures
        outcome == if old(store)@.has_track(track_id@) {
            Ok::<(), StoreError>(())
        } else {
            Err(StoreError::TrackNotFound)
        },
        final(store)@ == if outcome is Ok {
            old(store)@.without_track(track_id@)
        } else {
            old(store)@
        },
        outcome is Ok ==> no_trace_of(final(store)@, track_id@),
        old(store)@.wf() ==> final(store)@.wf(),
{
    if !store.has_track(&track_id) {
        return Err(StoreError::TrackNotFound);
    }
    let entries = entries_without(&store.playlist_tracks, &track_id);
    let favorites = favorites_without(&store.user_favorites, &track_id);
    let tracks = tracks_without(&store.tracks, &track_id);
    store.playlist_tracks = entries;
    store.user_favorites = favorites;
    store.tracks = tracks;
    proof {
        lemma_cascade_is_complete(old(store)@, track_id@);
        if old(store)@.wf() {
            lemma_cascade_keeps_invariants(old(store)@, track_id@);
        }
    }
    Ok(())
}

/// Whether the store holds no track with the id `id`, no playlist entry and
/// no favorite that names it.
pub open spec fn no_trace_of(s: StoreView, id: Seq<char>) -> bool {
    &&& !s.has_track(id)
    &&& forall|i: int| 0 <= i < s.playlist_tracks.len() ==> (#[trigger] s.playlist_tracks[i]).track_id != id
    &&& forall|i: int| 0 <= i < s.user_favorites.len() ==> (#[trigger] s.user_favorites[i]).track_id != id
}

/// After the deletion of a track, no track has its id and no playlist entry
/// and no favorite names it, in any playlist and for any user; and every
/// track, entry and favorite that has to do with another track is still
/// there.
pub proof fn lemma_cascade_is_complete(s: StoreView, id: Seq<char>)
    ensures
        no_trace_of(s.without_track(id), id),
        forall|i: int|
            0 <= i < s.tracks.len() && (#[trigger] s.tracks[i]).id != id
                ==> s.without_track(id).tracks.contains(s.tracks[i]),
        forall|i: int|
            0 <= i < s.playlist_tracks.len() && (#[trigger] s.playlist_tracks[i]).track_id != id
                ==> s.without_track(id).playlist_tracks.contains(s.playlist_tracks[i]),
        forall|i: int|
            0 <= i < s.user_favorites.len() && (#[trigger] s.user_favorites[i]).track_id != id
                ==> s.without_track(id).user_favorites.contains(s.user_favorites[i]),
{
    let after = s.without_track(id);
    lemma_filter_members(s.tracks, track_is_not(id));
    lemma_filter_members(s.playlist_tracks, entry_avoids(id));
    lemma_filter_members(s.user_favorites, favorite_avoids(id));
    assert forall|k: int| 0 <= k < after.track_ids().len() implies after.track_ids()[k] != id by {
        assert(track_is_not(id)(after.tracks[k]));
    }
    assert forall|i: int| 0 <= i < after.playlist_tracks.len() implies (
    #[trigger] after.playlist_tracks[i]).track_id != id by {
        assert(entry_avoids(id)(after.playlist_tracks[i]));
    }
    assert forall|i: int| 0 <= i < after.user_favorites.len() implies (
    #[trigger] after.user_favorites[i]).track_id != id by {
        assert(favorite_avoids(id)(after.user_favorites[i]));
    }
    assert forall|i: int| 0 <= i < s.tracks.len() && (#[trigger] s.tracks[i]).id
        != id implies after.tracks.contains(s.tracks[i]) by {
        assert(track_is_not(id)(s.tracks[i]));
    }
    assert forall|i: int|
        0 <= i < s.playlist_tracks.len() && (#[trigger] s.playlist_tracks[i]).track_id
            != id implies after.playlist_tracks.contains(s.playlist_tracks[i]) by {
        assert(entry_avoids(id)(s.playlist_tracks[i]));
    }
    assert forall|i: int|
        0 <= i < s.user_favorites.len() && (#[trigger] s.user_favorites[i]).track_id
            != id implies after.user_favorites.contains(s.user_favorites[i]) by {
        assert(favorite_avoids(id)(s.user_favorites[i]));
    }
}

/// The deletion of a track keeps the invariants of the store.
pub proof fn lemma_cascade_keeps_invariants(s: StoreView, id: Seq<char>)
    requires
        s.wf(),
    ensures
        s.without_track(id).wf(),
{
    let after = s.without_track(id);
    lemma_filter_members(s.tracks, track_is_not(id));
    lemma_filter_members(s.playlist_tracks, entry_avoids(id));
    lemma_filter_members(s.user_favorites, favorite_avoids(id));

    let other_track = |a: TrackView, b: TrackView| a.id != b.id;
    assert(pairwise(s.tracks, other_track)) by {
        assert forall|i: int, j: int| 0 <= i < j < s.tracks.len() implies other_track(
            #[trigger] s.tracks[i],
            #[trigger] s.tracks[j],
        ) by {
            assert(s.track_ids()[i] != s.track_ids()[j]);
        }
    }
    lemma_filter_pairwise(s.tracks, track_is_not(id), other_track);
    assert(distinct_keys(after.track_ids())) by {
        assert forall|i: int, j: int| 0 <= i < j < after.track_ids().len() implies
            #[trigger] after.track_ids()[i] != #[trigger] after.track_ids()[j] by {
            assert(other_track(after.tracks[i], after.tracks[j]));
        }
    }

    let other_entry = |a: PlaylistTrackView, b: PlaylistTrackView|
        a.id != b.id && (a.playlist_id == b.playlist_id ==> a.position != b.position);
    assert(pairwise(s.playlist_tracks, other_entry)) by {
        assert forall|i: int, j: int| 0 <= i < j < s.playlist_tracks.len() implies other_entry(
            #[trigger] s.playlist_tracks[i],
            #[trigger] s.playlist_tracks[j],
        ) by {
            assert(s.entry_ids()[i] != s.entry_ids()[j]);
        }
    }
    lemma_filter_pairwise(s.playlist_tracks, entry_avoids(id), other_entry);
    assert(distinct_keys(after.entry_ids())) by {
        assert forall|i: int, j: int| 0 <= i < j < after.entry_ids().len() implies
            #[trigger] after.entry_ids()[i] != #[trigger] after.entry_ids()[j] by {
            assert(other_entry(after.playlist_tracks[i], after.playlist_tracks[j]));
        }
    }
    assert(after.positions_distinct()) by {
        assert forall|i: int| 0 <= i < after.playlist_tracks.len() implies (
        #[trigger] after.playlist_tracks[i]).position >= 1 by {
            let e = after.playlist_tracks[i];
            let k = choose|k: int| 0 <= k < s.playlist_tracks.len() && s.playlist_tracks[k] == e;
            assert(s.playlist_tracks[k].position >= 1);
        }
        assert forall|i: int, j: int|
            0 <= i < j < after.playlist_tracks.len() && (
            #[trigger] after.playlist_tracks[i]).playlist_id == (
            #[trigger] after.playlist_tracks[j]).playlist_id implies after.playlist_tracks[i].position
            != after.playlist_tracks[j].position by {
            assert(other_entry(after.playlist_tracks[i], after.playlist_tracks[j]));
        }
    }

    let other_favorite = |a: UserFavoriteView, b: UserFavoriteView|
        a.id != b.id && !(a.user_id == b.user_id && a.track_id == b.track_id);
    assert(pairwise(s.user_favorites, other_favorite)) by {
        assert forall|i: int, j: int| 0 <= i < j < s.user_favorites.len() implies other_favorite(
            #[trigger] s.user_favorites[i],
            #[trigger] s.user_favorites[j],
        ) by {
            assert(s.favorite_ids()[i] != s.favorite_ids()[j]);
        }
    }
    lemma_filter_pairwise(s.user_favorites, favorite_avoids(id), other_favorite);
    assert(distinct_keys(after.favorite_ids())) by {
        assert forall|i: int, j: int| 0 <= i < j < after.favorite_ids().len() implies
            #[trigger] after.favorite_ids()[i] != #[trigger] after.favorite_ids()[j] by {
            assert(other_favorite(after.user_favorites[i], after.user_favorites[j]));
        }
    }
    assert(after.favorites_distinct()) by {
        assert forall|i: int, j: int| 0 <= i < j < after.user_favorites.len() implies !((
        #[trigger] after.user_favorites[i]).user_id == (#[trigger] after.user_favorites[j]).user_id
            && after.user_favorites[i].track_id == after.user_favorites[j].track_id) by {
            assert(other_favorite(after.user_favorites[i], after.user_favorites[j]));
        }
    }

    assert forall|other: Seq<char>| other != id && s.has_track(other) implies after.has_track(
        other,
    ) by {
        let k = choose|k: int| 0 <= k < s.track_ids().len() && s.track_ids()[k] == other;
        assert(track_is_not(id)(s.tracks[k]));
        assert(after.tracks.contains(s.tracks[k]));
        let m = choose|m: int| 0 <= m < after.tracks.len() && after.tracks[m] == s.tracks[k];
        assert(after.track_ids()[m] == other);
    }
    assert(after.references_resolve()) by {
        assert forall|i: int| 0 <= i < after.playlist_tracks.len() implies after.has_playlist(
            (#[trigger] after.playlist_tracks[i]).playlist_id,
        ) && after.has_track(after.playlist_tracks[i].track_id) by {
            let e = after.playlist_tracks[i];
            assert(entry_avoids(id)(e));
            let k = choose|k: int| 0 <= k < s.playlist_tracks.len() && s.playlist_tracks[k] == e;
            assert(s.has_track(s.playlist_tracks[k].track_id));
        }
        assert forall|i: int| 0 <= i < after.user_favorites.len() implies after.has_track(
            (#[trigger] after.user_favorites[i]).track_id,
        ) by {
            let f = after.user_favorites[i];
            assert(favorite_avoids(id)(f));
            let k = choose|k: int| 0 <= k < s.user_favorites.len() && s.user_favorites[k] == f;
            assert(s.has_track(s.user_favorites[k].track_id));
        }
    }
}

} // verus!
