//! Aggregate figures over the whole store.

use crate::model::TrackView;
use crate::store::{MusicStore, StoreView};
use vstd::prelude::*;

verus! {

/// Counts and sums over the store.
#[derive(Debug, Clone, Copy, PartialEq, Eq, Structural)]
pub struct LibraryStats {
    pub track_count: u64,
    pub playlist_count: u64,
    pub user_count: u64,
    pub total_duration_seconds: u128,
    pub total_size_bytes: u128,
}

/// The sum of the durations of `tracks`, in seconds.
pub open spec fn total_duration(tracks: Seq<TrackView>) -> nat
    decreases tracks.len(),
{
    if tracks.len() == 0 {
        0
    } else {
        total_duration(tracks.drop_last()) + tracks.last().duration_seconds as nat
    }
}

/// The sum of the file sizes of `tracks`, in bytes.
pub open spec fn total_size(tracks: Seq<TrackView>) -> nat
    decreases tracks.len(),
{
    if tracks.len() == 0 {
        0
    } else {
        total_size(tracks.drop_last()) + tracks.last().file_size_bytes as nat
    }
}

/// The number of tracks, playlists and users, and the total duration and
/// size of all tracks. The store is only read.
pub fn get_stats(store: &MusicStore) -> (stats: LibraryStats)
    ensures
        stats.track_count == store@.tracks.len(),
        stats.playlist_count == store@.playlists.len(),
        stats.user_count == store@.users.len(),
        stats.total_duration_seconds == total_duration(store@.tracks),
        stats.total_size_bytes == total_size(store@.tracks),
{
    let ghost all = store@.tracks;
    let count = store.tracks.len();
    let mut seconds: u128 = 0;
    let mut bytes: u128 = 0;
    let mut i: usize = 0;
    while i < count
        invariant
            i <= count,
            count == store.tracks.len(),
            all == store@.tracks,
            seconds == total_duration(all.take(i as int)),
            bytes == total_size(all.take(i as int)),
            seconds <= i * 0xffff_ffff,
            bytes <= i * 0xffff_ffff_ffff_ffff,
        decreases count - i,
    {
        let track = &store.tracks[i];
        proof {
            assert(all.take(i + 1).drop_last() =~= all.take(i as int));
            assert(all.take(i + 1).last() == track@);
        }
        seconds = seconds + track.duration_seconds as u128;
        bytes = bytes + track.file_size_bytes as u128;
        i += 1;
    }
    proof {
        assert(all.take(count as int) =~= all);
    }
    LibraryStats {
        track_count: count as u64,
        playlist_count: store.playlists.len() as u64,
        user_count: store.users.len() as u64,
        total_duration_seconds: seconds,
        total_size_bytes: bytes,
    }
}

/// An empty store has no duration and no size.
pub proof fn lemma_empty_store_totals()
    ensures
        StoreView::empty().tracks.len() == 0,
        StoreView::empty().playlists.len() == 0,
        StoreView::empty().users.len() == 0,
        total_duration(StoreView::empty().tracks) == 0,
        total_size(StoreView::empty().tracks) == 0,
{
}

/// One more track raises the totals by its duration and its size.
pub proof fn lemma_totals_grow_by_track(tracks: Seq<TrackView>, track: TrackView)
    ensures
        total_duration(tracks.push(track)) == total_duration(tracks) + track.duration_seconds,
        total_size(tracks.push(track)) == total_size(tracks) + track.file_size_bytes,
{
    assert(tracks.push(track).drop_last() =~= tracks);
}

} // verus!
