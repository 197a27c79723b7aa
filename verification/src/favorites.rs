//! Favorites: per user, a set of tracks. Adding a track twice leaves one
//! row.

use crate::ids::{
    current_timestamp, generate_id, holds_generated_id, identity_text, identity_to_string,
    is_generated_id,
};
use crate::keys::{distinct_keys, lemma_first_position};
use crate::model::{Track, TrackView, UserFavorite, UserFavoriteView};
use crate::seqs::{lemma_filter_members, lemma_filter_pairwise, pairwise};
use crate::store::{resolve, views_of, MusicStore, StoreError, StoreView};
use vstd::prelude::*;

verus! {

/// The favorites of `user` for `track`.
pub open spec fn favorite_is(user: Seq<char>, track: Seq<char>) -> spec_fn(
    UserFavoriteView,
) -> bool {
    |favorite: UserFavoriteView| favorite.user_id == user && favorite.track_id == track
}

/// The favorites of another user or for another track.
pub open spec fn favorite_is_not(user: Seq<char>, track: Seq<char>) -> spec_fn(
    UserFavoriteView,
) -> bool {
    |favorite: UserFavoriteView| !(favorite.user_id == user && favorite.track_id == track)
}

/// The tracks that the favorites of `user` among `favorites` resolve to, in
/// the order of the favorites. A favorite whose track is gone is left out.
pub open spec fn resolved_favorites(
    tracks: Seq<TrackView>,
    favorites: Seq<UserFavoriteView>,
    user: Seq<char>,
) -> Seq<TrackView>
    decreases favorites.len(),
{
    if favorites.len() == 0 {
        Seq::empty()
    } else {
        let rest = resolved_favorites(tracks, favorites.drop_last(), user);
        let last = favorites.last();
        if last.user_id == user {
            match resolve(tracks, last.track_id) {
                Some(track) => rest.push(track),
                None => rest,
            }
        } else {
            rest
        }
    }
}

impl StoreView {
    /// The store with one more favorite at the end.
    pub open spec fn with_favorite(self, favorite: UserFavoriteView) -> StoreView {
        StoreView { user_favorites: self.user_favorites.push(favorite), ..self }
    }

    /// What making `track` a favorite of `user` under the row id
    /// `favorite_id` returns: `Ok(true)` where a row is added, `Ok(false)`
    /// where the pair is a favorite already.
    pub open spec fn favorite_outcome(
        self,
        favorite_id: Seq<char>,
        user: Seq<char>,
        track: Seq<char>,
    ) -> Result<bool, StoreError> {
        if !self.has_track(track) {
            Err(StoreError::TrackNotFound)
        } else if self.is_favorite(user, track) {
            Ok(false)
        } else if self.has_favorite_id(favorite_id) {
            Err(StoreError::DuplicateId)
        } else {
            Ok(true)
        }
    }

    /// The store after making `track` a favorite of `user` under the row id
    /// `favorite_id`.
    pub open spec fn favored(
        self,
        favorite_id: Seq<char>,
        date_added: u64,
        user: Seq<char>,
        track: Seq<char>,
    ) -> StoreView {
        if self.favorite_outcome(favorite_id, user, track) == Ok::<bool, StoreError>(true) {
            self.with_favorite(
                UserFavoriteView { id: favorite_id, user_id: user, track_id: track, date_added },
            )
        } else {
            self
        }
    }

    /// The store without the favorites of `user` for `track`.
    pub open spec fn without_favorite(self, user: Seq<char>, track: Seq<char>) -> StoreView {
        StoreView { user_favorites: self.user_favorites.filter(favorite_is_not(user, track)), ..self }
    }

    /// How many favorite rows `user` has for `track`.
    pub open spec fn favorite_count(self, user: Seq<char>, track: Seq<char>) -> nat {
        self.user_favorites.filter(favorite_is(user, track)).len()
    }

    /// The favorite tracks of `user`, in the order they became favorites.
    pub open spec fn favorite_tracks(self, user: Seq<char>) -> Seq<TrackView> {
        resolved_favorites(self.tracks, self.user_favorites, user)
    }
}

/// Makes `track_id` a favorite of `user_id` under the row id `favorite_id`,
/// unless it is one already. Returns whether a row was added.
pub fn insert_favorite(
    store: &mut MusicStore,
    favorite_id: String,
    date_added: u64,
    user_id: String,
    track_id: String,
) -> (outcome: Result<bool, StoreError>)
    ensures
        outcome == old(store)@.favorite_outcome(favorite_id@, user_id@, track_id@),
        final(store)@ == old(store)@.favored(favorite_id@, date_added, user_id@, track_id@),
        outcome is Ok ==> final(store)@.is_favorite(user_id@, track_id@),
        old(store)@.wf() ==> final(store)@.wf(),
{
    if !store.has_track(&track_id) {
        return Err(StoreError::TrackNotFound);
    }
    if store.is_favorite(&user_id, &track_id) {
        return Ok(false);
    }
    if store.has_favorite_id(&favorite_id) {
        return Err(StoreError::DuplicateId);
    }
    let favorite = UserFavorite { id: favorite_id, user_id, track_id, date_added };
    store.user_favorites.push(favorite);
    proof {
        let last = old(store)@.user_favorites.len() as int;
        assert(final(store)@.user_favorites =~= old(store)@.user_favorites.push(favorite@));
        assert(final(store)@.favorite_ids() =~= old(store)@.favorite_ids().push(favorite@.id));
        assert(final(store)@.user_favorites[last].user_id == user_id@);
    }
    Ok(true)
}

/// Makes a track a favorite of the caller, under a freshly generated row id
/// and with the present time as the date. Returns whether a row was added:
/// a track that is a favorite of the caller already stays one, and nothing
/// changes.
///
/// `sender` holds the 32 bytes of the caller's identity, most significant
/// first.
pub fn add_to_favorites(store: &mut MusicStore, sender: &[u8; 32], track_id: String) -> (outcome:
    Result<bool, StoreError>)
    ensures
        ({
            let user = identity_text(sender@);
            if !old(store)@.has_track(track_id@) {
                outcome == Err::<bool, StoreError>(StoreError::TrackNotFound) && final(store)@
                    == old(store)@
            } else if old(store)@.is_favorite(user, track_id@) {
                outcome == Ok::<bool, StoreError>(false) && final(store)@ == old(store)@
            } else {
                ||| {
                    &&& outcome == Err::<bool, StoreError>(StoreError::DuplicateId)
                    &&& holds_generated_id(old(store)@.favorite_ids())
                    &&& final(store)@ == old(store)@
                }
                ||| {
                    &&& outcome == Ok::<bool, StoreError>(true)
                    &&& is_generated_id(final(store)@.user_favorites.last().id)
                    &&& !old(store)@.has_favorite_id(final(store)@.user_favorites.last().id)
                    &&& final(store)@ == old(store)@.with_favorite(
                        UserFavoriteView {
                            id: final(store)@.user_favorites.last().id,
                            user_id: user,
                            track_id: track_id@,
                            date_added: final(store)@.user_favorites.last().date_added,
                        },
                    )
                }
            }
        }),
        outcome is Ok ==> final(store)@.is_favorite(identity_text(sender@), track_id@),
        old(store)@.wf() ==> final(store)@.wf(),
{
    let favorite_id = generate_id();
    let date_added = current_timestamp();
    let user_id = identity_to_string(sender);
    proof {
        if store@.has_favorite_id(favorite_id@) {
            let k = choose|k: int|
                0 <= k < store@.favorite_ids().len() && store@.favorite_ids()[k] == favorite_id@;
            assert(is_generated_id(store@.favorite_ids()[k]));
        }
    }
    insert_favorite(store, favorite_id, date_added, user_id, track_id)
}

/// Deletes every favorite row of `user_id` for `track_id`: none, one, or
/// more where the store held duplicates.
pub fn delete_favorite(store: &mut MusicStore, user_id: &String, track_id: &String)
    ensures
        final(store)@ == old(store)@.without_favorite(user_id@, track_id@),
        !final(store)@.is_favorite(user_id@, track_id@),
        old(store)@.wf() ==> final(store)@.wf(),
{
    let ghost all = store@.user_favorites;
    let ghost keep = favorite_is_not(user_id@, track_id@);
    let mut kept: Vec<UserFavorite> = Vec::new();
    let mut i: usize = 0;
    assert(all.take(0) =~= Seq::empty());
    assert(views_of(kept@) =~= Seq::empty());
    while i < store.user_favorites.len()
        invariant
            i <= store.user_favorites.len(),
            all == store@.user_favorites,
            keep == favorite_is_not(user_id@, track_id@),
            views_of(kept@) == all.take(i as int).filter(keep),
        decreases store.user_favorites.len() - i,
    {
        let favorite = &store.user_favorites[i];
        proof {
            assert(all.take(i + 1) =~= all.take(i as int).push(favorite@));
            all.take(i as int).lemma_filter_push(favorite@, keep);
        }
        if !(favorite.user_id == *user_id && favorite.track_id == *track_id) {
            let ghost before = views_of(kept@);
            kept.push(favorite.clone());
            assert(views_of(kept@) =~= before.push(favorite@));
        }
        i += 1;
    }
    proof {
        assert(all.take(store.user_favorites.len() as int) =~= all);
    }
    store.user_favorites = kept;
    proof {
        lemma_removed_favorite_is_gone(old(store)@, user_id@, track_id@);
        if old(store)@.wf() {
            lemma_removal_keeps_invariants(old(store)@, user_id@, track_id@);
        }
    }
}

/// Removes a track from the caller's favorites. Nothing changes where it
/// was none.
///
/// `sender` holds the 32 bytes of the caller's identity, most significant
/// first.
pub fn remove_from_favorites(store: &mut MusicStore, sender: &[u8; 32], track_id: String)
    ensures
        final(store)@ == old(store)@.without_favorite(identity_text(sender@), track_id@),
        !final(store)@.is_favorite(identity_text(sender@), track_id@),
        old(store)@.wf() ==> final(store)@.wf(),
{
    let user_id = identity_to_string(sender);
    delete_favorite(store, &user_id, &track_id)
}

/// The favorite tracks of `user_id`, in the order they became favorites. A
/// favorite whose track no longer exists is left out.
pub fn favorite_tracks_of(store: &MusicStore, user_id: &String) -> (tracks: Vec<Track>)
    ensures
        views_of(tracks@) == store@.favorite_tracks(user_id@),
{
    let ghost all = store@.user_favorites;
    let mut tracks: Vec<Track> = Vec::new();
    let mut i: usize = 0;
    assert(views_of(tracks@) =~= Seq::empty());
    while i < store.user_favorites.len()
        invariant
            i <= store.user_favorites.len(),
            all == store@.user_favorites,
            views_of(tracks@) == resolved_favorites(store@.tracks, all.take(i as int), user_id@),
        decreases store.user_favorites.len() - i,
    {
        let favorite = &store.user_favorites[i];
        proof {
            assert(all.take(i + 1).drop_last() =~= all.take(i as int));
            assert(all.take(i + 1).last() == favorite@);
        }
        if favorite.user_id == *user_id {
            match store.find_track(&favorite.track_id) {
                Some(k) => {
                    let ghost before = views_of(tracks@);
                    tracks.push(store.tracks[k].clone());
                    assert(views_of(tracks@) =~= before.push(store@.tracks[k as int]));
                },
                None => {
                    proof {
                        lemma_first_position(store@.track_ids(), favorite.track_id@);
                    }
                },
            }
        }
        i += 1;
    }
    proof {
        assert(all.take(store.user_favorites.len() as int) =~= all);
    }
    tracks
}

/// The caller's favorite tracks, in the order they became favorites. A
/// favorite whose track no longer exists is left out.
///
/// `sender` holds the 32 bytes of the caller's identity, most significant
/// first.
pub fn get_favorite_tracks(store: &MusicStore, sender: &[u8; 32]) -> (tracks: Vec<Track>)
    ensures
        views_of(tracks@) == store@.favorite_tracks(identity_text(sender@)),
{
    let user_id = identity_to_string(sender);
    favorite_tracks_of(store, &user_id)
}

/// After a removal the pair is no favorite, and every favorite of another
/// user or for another track is still there.
pub proof fn lemma_removed_favorite_is_gone(s: StoreView, user: Seq<char>, track: Seq<char>)
    ensures
        !s.without_favorite(user, track).is_favorite(user, track),
        forall|i: int|
            0 <= i < s.user_favorites.len() && !((#[trigger] s.user_favorites[i]).user_id == user
                && s.user_favorites[i].track_id == track) ==> s.without_favorite(
                user,
                track,
            ).user_favorites.contains(s.user_favorites[i]),
{
    let after = s.without_favorite(user, track);
    lemma_filter_members(s.user_favorites, favorite_is_not(user, track));
    assert forall|i: int| 0 <= i < after.user_favorites.len() implies !((
    #[trigger] after.user_favorites[i]).user_id == user && after.user_favorites[i].track_id
        == track) by {
        assert(favorite_is_not(user, track)(after.user_favorites[i]));
    }
    assert forall|i: int|
        0 <= i < s.user_favorites.len() && !((#[trigger] s.user_favorites[i]).user_id == user
            && s.user_favorites[i].track_id == track) implies after.user_favorites.contains(
        s.user_favorites[i],
    ) by {
        assert(favorite_is_not(user, track)(s.user_favorites[i]));
    }
}

/// The removal of a favorite keeps the invariants of the store.
pub proof fn lemma_removal_keeps_invariants(s: StoreView, user: Seq<char>, track: Seq<char>)
    requires
        s.wf(),
    ensures
        s.without_favorite(user, track).wf(),
{
    let after = s.without_favorite(user, track);
    let keep = favorite_is_not(user, track);
    lemma_filter_members(s.user_favorites, keep);
    let other_favorite = |a: UserFavoriteView, b: UserFavoriteView|
        a.id != b.id && !(a.user_id == b.user_id && a.track_id == b.track_id);
    assert(pairwise(s.user_favorites, other_favorite)) by {
        assert forall|i: int, j: int| 0 <= i < j < s.user_favorites.len() implies other_favorite(
            #[trigger] s.user_favorites[i],
            #[trigger] s.user_favorites[j],
        ) by {
            assert(s.favorite_ids()[i] != s.favorite_ids()[j]);
        }
    }
    lemma_filter_pairwise(s.user_favorites, keep, other_favorite);
    assert(distinct_keys(after.favorite_ids())) by {
        assert forall|i: int, j: int| 0 <= i < j < after.favorite_ids().len() implies
            #[trigger] after.favorite_ids()[i] != #[trigger] after.favorite_ids()[j] by {
            assert(other_favorite(after.user_favorites[i], after.user_favorites[j]));
        }
    }
    assert(after.favorites_distinct()) by {
        assert forall|i: int, j: int| 0 <= i < j < after.user_favorites.len() implies !((
        #[trigger] after.user_favorites[i]).user_id == (#[trigger] after.user_favorites[j]).user_id
            && after.user_favorites[i].track_id == after.user_favorites[j].track_id) by {
            assert(other_favorite(after.user_favorites[i], after.user_favorites[j]));
        }
    }
    assert(after.references_resolve()) by {
        assert forall|i: int| 0 <= i < after.user_favorites.len() implies after.has_track(
            (#[trigger] after.user_favorites[i]).track_id,
        ) by {
            let f = after.user_favorites[i];
            let k = choose|k: int| 0 <= k < s.user_favorites.len() && s.user_favorites[k] == f;
            assert(s.has_track(s.user_favorites[k].track_id));
        }
    }
}

/// Where no pair of user and track has two favorite rows, a pair that is a
/// favorite has exactly one.
pub proof fn lemma_one_row_per_favorite(s: StoreView, user: Seq<char>, track: Seq<char>)
    requires
        s.favorites_distinct(),
    ensures
        s.favorite_count(user, track) == if s.is_favorite(user, track) {
            1nat
        } else {
            0nat
        },
{
    let is_pair = favorite_is(user, track);
    let rows = s.user_favorites.filter(is_pair);
    lemma_filter_members(s.user_favorites, is_pair);
    let other_pair = |a: UserFavoriteView, b: UserFavoriteView|
        !(a.user_id == b.user_id && a.track_id == b.track_id);
    assert(pairwise(s.user_favorites, other_pair));
    lemma_filter_pairwise(s.user_favorites, is_pair, other_pair);
    if rows.len() >= 2 {
        assert(is_pair(rows[0]) && is_pair(rows[1]));
        assert(other_pair(rows[0], rows[1]));
    }
    if s.is_favorite(user, track) {
        let i = choose|i: int|
            0 <= i < s.user_favorites.len() && (#[trigger] s.user_favorites[i]).user_id == user
                && s.user_favorites[i].track_id == track;
        assert(is_pair(s.user_favorites[i]));
        assert(rows.contains(s.user_favorites[i]));
    } else if rows.len() >= 1 {
        assert(is_pair(rows[0]));
        let k = choose|k: int| 0 <= k < s.user_favorites.len() && s.user_favorites[k] == rows[0];
        assert(s.user_favorites[k].user_id == user);
    }
}

/// Making a track a favorite twice is the same as making it one once: where
/// the first call succeeds, a second call for the same user and track,
/// under whatever row id and date, returns `Ok(false)` and changes nothing,
/// and the pair then has exactly one favorite row.
pub proof fn lemma_add_to_favorites_is_idempotent(
    s: StoreView,
    user: Seq<char>,
    track: Seq<char>,
    first: (Seq<char>, u64),
    second: (Seq<char>, u64),
)
    requires
        s.favorites_distinct(),
        s.favorite_outcome(first.0, user, track) is Ok,
    ensures
        ({
            let once = s.favored(first.0, first.1, user, track);
            &&& once.favorite_outcome(second.0, user, track) == Ok::<bool, StoreError>(false)
            &&& once.favored(second.0, second.1, user, track) == once
            &&& once.favorites_distinct()
            &&& once.favorite_count(user, track) == 1
        }),
{
    let once = s.favored(first.0, first.1, user, track);
    if s.favorite_outcome(first.0, user, track) == Ok::<bool, StoreError>(true) {
        let last = s.user_favorites.len() as int;
        assert(once.user_favorites[last].user_id == user);
        assert(once.is_favorite(user, track));
        assert(once.track_ids() == s.track_ids());
        assert forall|i: int, j: int| 0 <= i < j < once.user_favorites.len() implies !((
        #[trigger] once.user_favorites[i]).user_id == (#[trigger] once.user_favorites[j]).user_id
            && once.user_favorites[i].track_id == once.user_favorites[j].track_id) by {
            if j == last {
                assert(once.user_favorites[i] == s.user_favorites[i]);
            } else {
                assert(once.user_favorites[i] == s.user_favorites[i]);
                assert(once.user_favorites[j] == s.user_favorites[j]);
            }
        }
    }
    lemma_one_row_per_favorite(once, user, track);
}

} // verus!
