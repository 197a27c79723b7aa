//! Playlists: creation, appending a track at the next position, and the
//! ordered listing of a playlist's tracks.

use crate::ids::{
    current_timestamp, generate_id, holds_generated_id, identity_text, identity_to_string,
    is_generated_id,
};
use crate::model::{
    optional_text, Playlist, PlaylistTrack, PlaylistTrackView, PlaylistView, Track, TrackView,
};
use crate::order::{
    by_position, distinct_positions, lemma_by_position_strictly_ascends,
    lemma_largest_comes_last, lemma_slot_unique, positions_of, slot_for, strictly_ascending,
    tracks_of, Row,
};
use crate::store::{resolve, views_of, MusicStore, StoreError, StoreView};
use vstd::prelude::*;

verus! {

/// The largest position among the entries of `playlist`, or 0 if it has
/// none.
pub open spec fn max_position(entries: Seq<PlaylistTrackView>, playlist: Seq<char>) -> nat
    decreases entries.len(),
{
    if entries.len() == 0 {
        0
    } else {
        let rest = max_position(entries.drop_last(), playlist);
        let last = entries.last();
        if last.playlist_id == playlist && last.position > rest {
            last.position as nat
        } else {
            rest
        }
    }
}

/// `max_position` bounds the position of every entry of the playlist, and is
/// the position of one of them unless it is 0.
pub proof fn lemma_max_position(entries: Seq<PlaylistTrackView>, playlist: Seq<char>)
    ensures
        forall|i: int|
            0 <= i < entries.len() && (#[trigger] entries[i]).playlist_id == playlist
                ==> entries[i].position <= max_position(entries, playlist),
        max_position(entries, playlist) == 0 || exists|i: int|
            0 <= i < entries.len() && (#[trigger] entries[i]).playlist_id == playlist
                && entries[i].position == max_position(entries, playlist),
    decreases entries.len(),
{
    if entries.len() > 0 {
        let rest = entries.drop_last();
        lemma_max_position(rest, playlist);
        assert forall|i: int|
            0 <= i < entries.len() && (#[trigger] entries[i]).playlist_id
                == playlist implies entries[i].position <= max_position(entries, playlist) by {
            if i < rest.len() {
                assert(rest[i] == entries[i]);
            }
        }
        if max_position(entries, playlist) != 0 {
            if max_position(entries, playlist) == max_position(rest, playlist) {
                let i = choose|i: int|
                    0 <= i < rest.len() && (#[trigger] rest[i]).playlist_id == playlist
                        && rest[i].position == max_position(rest, playlist);
                assert(entries[i] == rest[i]);
            } else {
                assert(entries[entries.len() - 1] == entries.last());
            }
        }
    }
}

impl StoreView {
    /// The store with one more playlist at the end.
    pub open spec fn with_playlist(self, playlist: PlaylistView) -> StoreView {
        StoreView { playlists: self.playlists.push(playlist), ..self }
    }

    /// The store with one more playlist entry at the end.
    pub open spec fn with_entry(self, entry: PlaylistTrackView) -> StoreView {
        StoreView { playlist_tracks: self.playlist_tracks.push(entry), ..self }
    }

    /// The position that the next entry of `playlist` gets, or the reason
    /// why nothing can be appended, whatever id the new entry would carry.
    pub open spec fn next_position(self, playlist: Seq<char>, track: Seq<char>) -> Result<
        u32,
        StoreError,
    > {
        if !self.has_playlist(playlist) {
            Err(StoreError::PlaylistNotFound)
        } else if !self.has_track(track) {
            Err(StoreError::TrackNotFound)
        } else if max_position(self.playlist_tracks, playlist) >= u32::MAX {
            Err(StoreError::PositionOverflow)
        } else {
            Ok((max_position(self.playlist_tracks, playlist) + 1) as u32)
        }
    }

    /// What appending `track` to `playlist` under the entry id `entry_id`
    /// returns.
    pub open spec fn append_outcome(
        self,
        entry_id: Seq<char>,
        playlist: Seq<char>,
        track: Seq<char>,
    ) -> Result<u32, StoreError> {
        match self.next_position(playlist, track) {
            Ok(position) => if self.has_entry(entry_id) {
                Err(StoreError::DuplicateId)
            } else {
                Ok(position)
            },
            Err(e) => Err(e),
        }
    }

    /// The store after appending `track` to `playlist` under the entry id
    /// `entry_id`.
    pub open spec fn appended(
        self,
        entry_id: Seq<char>,
        date_added: u64,
        playlist: Seq<char>,
        track: Seq<char>,
    ) -> StoreView {
        match self.append_outcome(entry_id, playlist, track) {
            Ok(position) => self.with_entry(
                PlaylistTrackView {
                    id: entry_id,
                    playlist_id: playlist,
                    track_id: track,
                    position,
                    date_added,
                },
            ),
            Err(_) => self,
        }
    }

    /// The entries of `playlist` whose track resolves, in the order they are
    /// stored, each as its position and its track.
    pub open spec fn playlist_rows(self, playlist: Seq<char>) -> Seq<Row> {
        rows_of(self.tracks, self.playlist_tracks, playlist)
    }

    /// The tracks of `playlist` in ascending order of position. An entry
    /// whose track is gone is left out.
    pub open spec fn playlist_listing(self, playlist: Seq<char>) -> Seq<TrackView> {
        tracks_of(by_position(self.playlist_rows(playlist)))
    }
}

/// The entries among `entries` that belong to `playlist` and whose track
/// resolves among `tracks`, in order, each as its position and its track.
pub open spec fn rows_of(
    tracks: Seq<TrackView>,
    entries: Seq<PlaylistTrackView>,
    playlist: Seq<char>,
) -> Seq<Row>
    decreases entries.len(),
{
    if entries.len() == 0 {
        Seq::empty()
    } else {
        let rest = rows_of(tracks, entries.drop_last(), playlist);
        let last = entries.last();
        if last.playlist_id == playlist {
            match resolve(tracks, last.track_id) {
                Some(track) => rest.push((last.position, track)),
                None => rest,
            }
        } else {
            rest
        }
    }
}

/// Positions and tracks of equal number, row by row.
pub open spec fn paired(positions: Seq<u32>, tracks: Seq<TrackView>) -> Seq<Row> {
    Seq::new(positions.len(), |i: int| (positions[i], tracks[i]))
}

/// Adds `playlist` to the store, unless its id is taken.
pub fn insert_playlist(store: &mut MusicStore, playlist: Playlist) -> (outcome: Result<
    (),
    StoreError,
>)
    ensures
        outcome == if old(store)@.has_playlist(playlist@.id) {
            Err::<(), StoreError>(StoreError::DuplicateId)
        } else {
            Ok(())
        },
        final(store)@ == if outcome is Ok {
            old(store)@.with_playlist(playlist@)
        } else {
            old(store)@
        },
        old(store)@.wf() ==> final(store)@.wf(),
{
    if store.has_playlist(&playlist.id) {
        return Err(StoreError::DuplicateId);
    }
    store.playlists.push(playlist);
    proof {
        assert(final(store)@.playlists =~= old(store)@.playlists.push(playlist@));
        assert(final(store)@.playlist_ids() =~= old(store)@.playlist_ids().push(playlist@.id));
        if old(store)@.wf() {
            lemma_more_playlists_keep_references(old(store)@, playlist@);
        }
    }
    Ok(())
}

/// A store that gains a playlist still resolves every reference it resolved
/// before.
proof fn lemma_more_playlists_keep_references(s: StoreView, playlist: PlaylistView)
    requires
        s.references_resolve(),
    ensures
        s.with_playlist(playlist).references_resolve(),
{
    let t = s.with_playlist(playlist);
    assert forall|i: int| 0 <= i < t.playlist_tracks.len() implies t.has_playlist(
        (#[trigger] t.playlist_tracks[i]).playlist_id,
    ) && t.has_track(t.playlist_tracks[i].track_id) by {
        let pid = s.playlist_tracks[i].playlist_id;
        assert(s.has_playlist(pid));
        let k = choose|k: int| 0 <= k < s.playlist_ids().len() && s.playlist_ids()[k] == pid;
        assert(t.playlist_ids()[k] == pid);
    }
}

/// The largest position among the entries of `playlist_id`, or 0.
fn largest_position(entries: &Vec<PlaylistTrack>, playlist_id: &String) -> (largest: u32)
    ensures
        largest == max_position(views_of(entries@), playlist_id@),
{
    let ghost all = views_of(entries@);
    let mut largest: u32 = 0;
    let mut i: usize = 0;
    while i < entries.len()
        invariant
            i <= entries.len(),
            all == views_of(entries@),
            largest == max_position(all.take(i as int), playlist_id@),
        decreases entries.len() - i,
    {
        let entry = &entries[i];
        proof {
            assert(all.take(i + 1).drop_last() =~= all.take(i as int));
            assert(all.take(i + 1).last() == entry@);
        }
        if entry.playlist_id == *playlist_id && entry.position > largest {
            largest = entry.position;
        }
        i += 1;
    }
    proof {
        assert(all.take(entries.len() as int) =~= all);
    }
    largest
}

/// Appends `track_id` to `playlist_id` as a new entry with the id
/// `entry_id`, at one more than the largest position the playlist holds.
/// Returns the position. A track may stand in a playlist more than once.
pub fn append_entry(
    store: &mut MusicStore,
    entry_id: String,
    date_added: u64,
    playlist_id: String,
    track_id: String,
) -> (outcome: Result<u32, StoreError>)
    ensures
        outcome == old(store)@.append_outcome(entry_id@, playlist_id@, track_id@),
        final(store)@ == old(store)@.appended(entry_id@, date_added, playlist_id@, track_id@),
        old(store)@.wf() ==> final(store)@.wf(),
{
    if !store.has_playlist(&playlist_id) {
        return Err(StoreError::PlaylistNotFound);
    }
    if !store.has_track(&track_id) {
        return Err(StoreError::TrackNotFound);
    }
    let largest = largest_position(&store.playlist_tracks, &playlist_id);
    if largest == u32::MAX {
        return Err(StoreError::PositionOverflow);
    }
    if store.has_entry(&entry_id) {
        return Err(StoreError::DuplicateId);
    }
    let position = largest + 1;
    let entry = PlaylistTrack { id: entry_id, playlist_id, track_id, position, date_added };
    store.playlist_tracks.push(entry);
    proof {
        assert(final(store)@.playlist_tracks =~= old(store)@.playlist_tracks.push(entry@));
        assert(final(store)@.entry_ids() =~= old(store)@.entry_ids().push(entry@.id));
        lemma_max_position(old(store)@.playlist_tracks, entry@.playlist_id);
    }
    Ok(position)
}

/// Creates a playlist owned by the caller, under a freshly generated id and
/// with the present time as its creation date, and returns the id.
///
/// `sender` holds the 32 bytes of the caller's identity, most significant
/// first. The owner is not required to be a known user.
pub fn create_playlist(
    store: &mut MusicStore,
    sender: &[u8; 32],
    name: String,
    description: Option<String>,
    is_public: bool,
) -> (outcome: Result<String, StoreError>)
    ensures
        match outcome {
            Ok(id) => {
                &&& is_generated_id(id@)
                &&& !old(store)@.has_playlist(id@)
                &&& final(store)@ == old(store)@.with_playlist(
                    PlaylistView {
                        id: id@,
                        name: name@,
                        owner_id: identity_text(sender@),
                        description: optional_text(description),
                        date_created: final(store)@.playlists.last().date_created,
                        is_public,
                    },
                )
            },
            Err(e) => {
                &&& e == StoreError::DuplicateId
                &&& holds_generated_id(old(store)@.playlist_ids())
                &&& final(store)@ == old(store)@
            },
        },
        old(store)@.wf() ==> final(store)@.wf(),
{
    let id = generate_id();
    let returned = id.clone();
    proof {
        if store@.has_playlist(id@) {
            let k = choose|k: int|
                0 <= k < store@.playlist_ids().len() && store@.playlist_ids()[k] == id@;
            assert(is_generated_id(store@.playlist_ids()[k]));
        }
    }
    let playlist = Playlist {
        id,
        name,
        owner_id: identity_to_string(sender),
        description,
        date_created: current_timestamp(),
        is_public,
    };
    match insert_playlist(store, playlist) {
        Ok(()) => Ok(returned),
        Err(e) => Err(e),
    }
}

/// Appends a track to a playlist under a freshly generated entry id, with
/// the present time as the date, and returns the position it got.
pub fn add_track_to_playlist(store: &mut MusicStore, playlist_id: String, track_id: String) -> (outcome:
    Result<u32, StoreError>)
    ensures
        match old(store)@.next_position(playlist_id@, track_id@) {
            Err(e) => outcome == Err::<u32, StoreError>(e) && final(store)@ == old(store)@,
            Ok(position) => {
                ||| {
                    &&& outcome == Err::<u32, StoreError>(StoreError::DuplicateId)
                    &&& holds_generated_id(old(store)@.entry_ids())
                    &&& final(store)@ == old(store)@
                }
                ||| {
                    &&& outcome == Ok::<u32, StoreError>(position)
                    &&& is_generated_id(final(store)@.playlist_tracks.last().id)
                    &&& !old(store)@.has_entry(final(store)@.playlist_tracks.last().id)
                    &&& final(store)@ == old(store)@.with_entry(
                        PlaylistTrackView {
                            id: final(store)@.playlist_tracks.last().id,
                            playlist_id: playlist_id@,
                            track_id: track_id@,
                            position,
                            date_added: final(store)@.playlist_tracks.last().date_added,
                        },
                    )
                }
            },
        },
        old(store)@.wf() ==> final(store)@.wf(),
{
    let entry_id = generate_id();
    let date_added = current_timestamp();
    proof {
        if store@.has_entry(entry_id@) {
            let k = choose|k: int|
                0 <= k < store@.entry_ids().len() && store@.entry_ids()[k] == entry_id@;
            assert(is_generated_id(store@.entry_ids()[k]));
        }
    }
    append_entry(store, entry_id, date_added, playlist_id, track_id)
}

/// Where a row with position `position` goes among rows already in order.
fn find_slot(positions: &Vec<u32>, position: u32) -> (slot: usize)
    ensures
        slot <= positions.len(),
        slot as int == slot_for(positions@, position),
{
    let mut slot = positions.len();
    while slot > 0 && positions[slot - 1] > position
        invariant
            slot <= positions.len(),
            forall|k: int| slot <= k < positions.len() ==> #[trigger] positions@[k] > position,
        decreases slot,
    {
        slot -= 1;
    }
    proof {
        lemma_slot_unique(positions@, position, slot as int);
    }
    slot
}

/// Lists the tracks of a playlist in ascending order of position. An entry
/// whose track no longer exists is left out.
pub fn get_playlist_tracks(store: &MusicStore, playlist_id: String) -> (outcome: Result<
    Vec<Track>,
    StoreError,
>)
    ensures
        match outcome {
            Ok(tracks) => store@.has_playlist(playlist_id@) && views_of(tracks@)
                == store@.playlist_listing(playlist_id@),
            Err(e) => e == StoreError::PlaylistNotFound && !store@.has_playlist(playlist_id@),
        },
{
    if !store.has_playlist(&playlist_id) {
        return Err(StoreError::PlaylistNotFound);
    }
    let ghost entries = store@.playlist_tracks;
    let mut positions: Vec<u32> = Vec::new();
    let mut tracks: Vec<Track> = Vec::new();
    let mut i: usize = 0;
    assert(paired(positions@, views_of(tracks@)) =~= Seq::empty());
    while i < store.playlist_tracks.len()
        invariant
            i <= store.playlist_tracks.len(),
            entries == store@.playlist_tracks,
            positions.len() == tracks.len(),
            paired(positions@, views_of(tracks@)) == by_position(
                rows_of(store@.tracks, entries.take(i as int), playlist_id@),
            ),
        decreases store.playlist_tracks.len() - i,
    {
        let entry = &store.playlist_tracks[i];
        let ghost sorted = paired(positions@, views_of(tracks@));
        let ghost rows = rows_of(store@.tracks, entries.take(i as int), playlist_id@);
        proof {
            assert(entries.take(i + 1).drop_last() =~= entries.take(i as int));
            assert(entries.take(i + 1).last() == entry@);
        }
        if entry.playlist_id == playlist_id {
            match store.find_track(&entry.track_id) {
                Some(k) => {
                    let track = store.tracks[k].clone();
                    proof {
                        assert(positions_of(sorted) =~= positions@);
                    }
                    let slot = find_slot(&positions, entry.position);
                    positions.insert(slot, entry.position);
                    tracks.insert(slot, track);
                    proof {
                        let row = (entry.position, track@);
                        assert(rows.push(row).drop_last() =~= rows);
                        assert(paired(positions@, views_of(tracks@)) =~= sorted.insert(
                            slot as int,
                            row,
                        ));
                    }
                },
                None => {
                    proof {
                        crate::keys::lemma_first_position(store@.track_ids(), entry.track_id@);
                    }
                },
            }
        }
        i += 1;
    }
    proof {
        assert(entries.take(store.playlist_tracks.len() as int) =~= entries);
        assert(tracks_of(paired(positions@, views_of(tracks@))) =~= views_of(tracks@));
    }
    Ok(tracks)
}

/// No row of a playlist stands at a position beyond `max_position`.
pub proof fn lemma_rows_bounded(
    tracks: Seq<TrackView>,
    entries: Seq<PlaylistTrackView>,
    playlist: Seq<char>,
)
    ensures
        forall|i: int|
            0 <= i < rows_of(tracks, entries, playlist).len() ==> (#[trigger] rows_of(
                tracks,
                entries,
                playlist,
            )[i]).0 <= max_position(entries, playlist),
    decreases entries.len(),
{
    if entries.len() > 0 {
        let rest = rows_of(tracks, entries.drop_last(), playlist);
        let rows = rows_of(tracks, entries, playlist);
        lemma_rows_bounded(tracks, entries.drop_last(), playlist);
        assert forall|i: int| 0 <= i < rows.len() implies (#[trigger] rows[i]).0 <= max_position(
            entries,
            playlist,
        ) by {
            if i < rest.len() {
                assert(rows[i] == rest[i]);
            }
        }
    }
}

/// Every row of a playlist has the position of one of the playlist's
/// entries.
pub proof fn lemma_rows_come_from_entries(
    tracks: Seq<TrackView>,
    entries: Seq<PlaylistTrackView>,
    playlist: Seq<char>,
    i: int,
)
    requires
        0 <= i < rows_of(tracks, entries, playlist).len(),
    ensures
        exists|k: int|
            0 <= k < entries.len() && (#[trigger] entries[k]).playlist_id == playlist
                && entries[k].position == rows_of(tracks, entries, playlist)[i].0,
    decreases entries.len(),
{
    let rest = entries.drop_last();
    let rest_rows = rows_of(tracks, rest, playlist);
    if i < rest_rows.len() {
        lemma_rows_come_from_entries(tracks, rest, playlist, i);
        let k = choose|k: int|
            0 <= k < rest.len() && (#[trigger] rest[k]).playlist_id == playlist
                && rest[k].position == rest_rows[i].0;
        assert(entries[k] == rest[k]);
    } else {
        assert(entries[entries.len() - 1] == entries.last());
    }
}

/// Where no two entries of a playlist share a position, the playlist is
/// listed in increasing order of position.
pub proof fn lemma_listing_positions_increase(s: StoreView, playlist: Seq<char>)
    requires
        s.positions_distinct(),
    ensures
        strictly_ascending(by_position(s.playlist_rows(playlist))),
{
    lemma_rows_are_distinct(s.tracks, s.playlist_tracks, playlist);
    lemma_by_position_strictly_ascends(s.playlist_rows(playlist));
}

/// Entries of one playlist at different positions give rows at different
/// positions.
proof fn lemma_rows_are_distinct(
    tracks: Seq<TrackView>,
    entries: Seq<PlaylistTrackView>,
    playlist: Seq<char>,
)
    requires
        forall|i: int, j: int|
            0 <= i < j < entries.len() && (#[trigger] entries[i]).playlist_id == (
            #[trigger] entries[j]).playlist_id ==> entries[i].position != entries[j].position,
    ensures
        distinct_positions(rows_of(tracks, entries, playlist)),
    decreases entries.len(),
{
    if entries.len() > 0 {
        let rest = entries.drop_last();
        let rest_rows = rows_of(tracks, rest, playlist);
        let rows = rows_of(tracks, entries, playlist);
        assert forall|i: int, j: int|
            0 <= i < j < rest.len() && (#[trigger] rest[i]).playlist_id == (
            #[trigger] rest[j]).playlist_id implies rest[i].position != rest[j].position by {
            assert(rest[i] == entries[i] && rest[j] == entries[j]);
        }
        lemma_rows_are_distinct(tracks, rest, playlist);
        assert forall|i: int, j: int| 0 <= i < j < rows.len() implies (#[trigger] rows[i]).0 != (
        #[trigger] rows[j]).0 by {
            if j < rest_rows.len() {
                assert(rows[i] == rest_rows[i] && rows[j] == rest_rows[j]);
            } else {
                assert(rows[i] == rest_rows[i]);
                lemma_rows_come_from_entries(tracks, rest, playlist, i);
                let k = choose|k: int|
                    0 <= k < rest.len() && (#[trigger] rest[k]).playlist_id == playlist
                        && rest[k].position == rest_rows[i].0;
                assert(entries[k] == rest[k]);
                assert(entries[entries.len() - 1] == entries.last());
            }
        }
    }
}

/// A track appended to a playlist at a position beyond all that the
/// playlist holds is listed last, after everything that was listed before;
/// every other playlist lists what it listed before.
pub proof fn lemma_appended_track_is_listed_last(s: StoreView, entry: PlaylistTrackView)
    requires
        s.track(entry.track_id) is Some,
        entry.position > max_position(s.playlist_tracks, entry.playlist_id),
    ensures
        by_position(s.with_entry(entry).playlist_rows(entry.playlist_id)) == by_position(
            s.playlist_rows(entry.playlist_id),
        ).push((entry.position, s.track(entry.track_id)->0)),
        s.with_entry(entry).playlist_listing(entry.playlist_id) == s.playlist_listing(
            entry.playlist_id,
        ).push(s.track(entry.track_id)->0),
        max_position(s.with_entry(entry).playlist_tracks, entry.playlist_id) == entry.position,
        forall|other: Seq<char>|
            other != entry.playlist_id ==> #[trigger] s.with_entry(entry).playlist_rows(other)
                == s.playlist_rows(other),
{
    let after = s.with_entry(entry);
    let rows = s.playlist_rows(entry.playlist_id);
    let row = (entry.position, s.track(entry.track_id)->0);
    assert(after.playlist_tracks.drop_last() =~= s.playlist_tracks);
    assert(after.playlist_rows(entry.playlist_id) == rows.push(row));
    lemma_rows_bounded(s.tracks, s.playlist_tracks, entry.playlist_id);
    lemma_largest_comes_last(rows, row);
    assert(tracks_of(by_position(rows).push(row)) =~= tracks_of(by_position(rows)).push(row.1));
}

/// Three tracks appended to one playlist one after the other get three
/// consecutive, increasing positions, and the playlist then lists what it
/// listed before followed by the three tracks in the order they were
/// appended.
pub proof fn lemma_appends_are_listed_in_order(
    s: StoreView,
    playlist: Seq<char>,
    ids: (Seq<char>, Seq<char>, Seq<char>),
    dates: (u64, u64, u64),
    tracks: (Seq<char>, Seq<char>, Seq<char>),
)
    requires
        s.append_outcome(ids.0, playlist, tracks.0) is Ok,
        s.appended(ids.0, dates.0, playlist, tracks.0).append_outcome(ids.1, playlist, tracks.1)
            is Ok,
        s.appended(ids.0, dates.0, playlist, tracks.0).appended(
            ids.1,
            dates.1,
            playlist,
            tracks.1,
        ).append_outcome(ids.2, playlist, tracks.2) is Ok,
    ensures
        ({
            let first = s.append_outcome(ids.0, playlist, tracks.0)->Ok_0;
            let s1 = s.appended(ids.0, dates.0, playlist, tracks.0);
            let second = s1.append_outcome(ids.1, playlist, tracks.1)->Ok_0;
            let s2 = s1.appended(ids.1, dates.1, playlist, tracks.1);
            let third = s2.append_outcome(ids.2, playlist, tracks.2)->Ok_0;
            let s3 = s2.appended(ids.2, dates.2, playlist, tracks.2);
            &&& first == max_position(s.playlist_tracks, playlist) + 1
            &&& second == first + 1
            &&& third == second + 1
            &&& s3.playlist_listing(playlist) == s.playlist_listing(playlist).push(
                s.track(tracks.0)->0,
            ).push(s.track(tracks.1)->0).push(s.track(tracks.2)->0)
        }),
{
    let first = s.append_outcome(ids.0, playlist, tracks.0)->Ok_0;
    let s1 = s.appended(ids.0, dates.0, playlist, tracks.0);
    let second = s1.append_outcome(ids.1, playlist, tracks.1)->Ok_0;
    let s2 = s1.appended(ids.1, dates.1, playlist, tracks.1);
    let third = s2.append_outcome(ids.2, playlist, tracks.2)->Ok_0;
    crate::keys::lemma_contains_iff_found(s.track_ids(), tracks.0);
    crate::keys::lemma_contains_iff_found(s.track_ids(), tracks.1);
    crate::keys::lemma_contains_iff_found(s.track_ids(), tracks.2);
    lemma_appended_track_is_listed_last(
        s,
        PlaylistTrackView {
            id: ids.0,
            playlist_id: playlist,
            track_id: tracks.0,
            position: first,
            date_added: dates.0,
        },
    );
    lemma_appended_track_is_listed_last(
        s1,
        PlaylistTrackView {
            id: ids.1,
            playlist_id: playlist,
            track_id: tracks.1,
            position: second,
            date_added: dates.1,
        },
    );
    lemma_appended_track_is_listed_last(
        s2,
        PlaylistTrackView {
            id: ids.2,
            playlist_id: playlist,
            track_id: tracks.2,
            position: third,
            date_added: dates.2,
        },
    );
}

} // verus!

