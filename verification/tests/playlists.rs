use music_library::catalog::{add_track, delete_track, insert_track};
use music_library::model::{Playlist, PlaylistTrack, Track};
use music_library::playlists::{
    add_track_to_playlist, append_entry, create_playlist, get_playlist_tracks, insert_playlist,
};
use music_library::store::{MusicStore, StoreError};

fn song(id: &str) -> Track {
    Track {
        id: id.to_string(),
        title: format!("title {}", id),
        artist: "artist".to_string(),
        album: "album".to_string(),
        genre: None,
        year: None,
        duration_seconds: 100,
        file_path: "f.mp3".to_string(),
        file_size_bytes: 10,
        date_added: 1,
    }
}

fn list(id: &str) -> Playlist {
    Playlist {
        id: id.to_string(),
        name: "name".to_string(),
        owner_id: "owner".to_string(),
        description: Some("words".to_string()),
        date_created: 3,
        is_public: true,
    }
}

fn entry(id: &str, playlist: &str, track: &str, position: u32) -> PlaylistTrack {
    PlaylistTrack {
        id: id.to_string(),
        playlist_id: playlist.to_string(),
        track_id: track.to_string(),
        position,
        date_added: 9,
    }
}

fn ids(tracks: &[Track]) -> Vec<String> {
    tracks.iter().map(|t| t.id.clone()).collect()
}

#[test]
fn scenario_add_list_delete_list() {
    let mut store = MusicStore::new();
    let t1 = add_track(
        &mut store,
        "Song A".to_string(),
        "Artist X".to_string(),
        "Album Y".to_string(),
        None,
        None,
        180,
        "a.mp3".to_string(),
        1000,
    )
    .unwrap();
    let sender = [7u8; 32];
    let p1 = create_playlist(&mut store, &sender, "My List".to_string(), None, true).unwrap();
    assert_eq!(add_track_to_playlist(&mut store, p1.clone(), t1.clone()), Ok(1));
    assert_eq!(store.playlist_tracks.len(), 1);
    assert_eq!(store.playlist_tracks[0].position, 1);
    assert_eq!(store.playlist_tracks[0].playlist_id, p1);
    assert_eq!(store.playlist_tracks[0].track_id, t1);

    let listed = get_playlist_tracks(&store, p1.clone()).unwrap();
    assert_eq!(ids(&listed), vec![t1.clone()]);
    assert_eq!(listed[0].title, "Song A");

    assert_eq!(delete_track(&mut store, t1), Ok(()));
    assert_eq!(get_playlist_tracks(&store, p1), Ok(vec![]));
}

#[test]
fn create_playlist_records_owner_and_fields() {
    let mut store = MusicStore::new();
    let mut sender = [0u8; 32];
    sender[0] = 0xc2;
    sender[1] = 0x00;
    sender[2] = 0x1f;
    sender[31] = 0xab;
    let id = create_playlist(
        &mut store,
        &sender,
        "My List".to_string(),
        Some("for the road".to_string()),
        false,
    )
    .unwrap();
    assert_eq!(id.len(), 16);
    assert!(id.chars().all(|c| c.is_ascii_alphanumeric()));
    assert_eq!(store.playlists.len(), 1);
    let made = &store.playlists[0];
    assert_eq!(made.id, id);
    assert_eq!(made.name, "My List");
    assert_eq!(
        made.owner_id,
        "c2001f00000000000000000000000000000000000000000000000000000000ab"
    );
    assert_eq!(made.description, Some("for the road".to_string()));
    assert!(!made.is_public);
    assert!(made.date_created >= 1_500_000_000);
}

#[test]
fn insert_playlist_refuses_a_taken_id() {
    let mut store = MusicStore::new();
    assert_eq!(insert_playlist(&mut store, list("p1")), Ok(()));
    assert_eq!(insert_playlist(&mut store, list("p1")), Err(StoreError::DuplicateId));
    assert_eq!(store.playlists.len(), 1);
    assert!(store.has_playlist(&"p1".to_string()));
    assert!(!store.has_playlist(&"p2".to_string()));
}

#[test]
fn appended_tracks_get_positions_one_two_three_and_are_listed_in_that_order() {
    let mut store = MusicStore::new();
    for id in ["t1", "t2", "t3"] {
        insert_track(&mut store, song(id)).unwrap();
    }
    insert_playlist(&mut store, list("p1")).unwrap();
    assert_eq!(add_track_to_playlist(&mut store, "p1".into(), "t2".into()), Ok(1));
    assert_eq!(add_track_to_playlist(&mut store, "p1".into(), "t1".into()), Ok(2));
    assert_eq!(add_track_to_playlist(&mut store, "p1".into(), "t3".into()), Ok(3));
    let positions: Vec<u32> = store.playlist_tracks.iter().map(|e| e.position).collect();
    assert_eq!(positions, vec![1, 2, 3]);
    assert!(store.playlist_tracks.iter().all(|e| e.id.len() == 16));
    let listed = get_playlist_tracks(&store, "p1".to_string()).unwrap();
    assert_eq!(ids(&listed), vec!["t2", "t1", "t3"]);
}

#[test]
fn positions_are_counted_per_playlist() {
    let mut store = MusicStore::new();
    insert_track(&mut store, song("t1")).unwrap();
    insert_playlist(&mut store, list("p1")).unwrap();
    insert_playlist(&mut store, list("p2")).unwrap();
    assert_eq!(append_entry(&mut store, "e1".into(), 5, "p1".into(), "t1".into()), Ok(1));
    assert_eq!(append_entry(&mut store, "e2".into(), 5, "p1".into(), "t1".into()), Ok(2));
    assert_eq!(append_entry(&mut store, "e3".into(), 5, "p2".into(), "t1".into()), Ok(1));
    let mut expected = entry("e3", "p2", "t1", 1);
    expected.date_added = 5;
    assert_eq!(store.playlist_tracks[2], expected);
}

#[test]
fn a_track_may_stand_in_a_playlist_twice() {
    let mut store = MusicStore::new();
    insert_track(&mut store, song("t1")).unwrap();
    insert_playlist(&mut store, list("p1")).unwrap();
    append_entry(&mut store, "e1".into(), 5, "p1".into(), "t1".into()).unwrap();
    append_entry(&mut store, "e2".into(), 5, "p1".into(), "t1".into()).unwrap();
    let listed = get_playlist_tracks(&store, "p1".to_string()).unwrap();
    assert_eq!(ids(&listed), vec!["t1", "t1"]);
}

#[test]
fn next_position_follows_the_largest_not_the_count() {
    let mut store = MusicStore::new();
    insert_track(&mut store, song("t1")).unwrap();
    insert_playlist(&mut store, list("p1")).unwrap();
    store.playlist_tracks.push(entry("e1", "p1", "t1", 10));
    store.playlist_tracks.push(entry("e2", "p1", "t1", 4));
    store.playlist_tracks.push(entry("e3", "other", "t1", 50));
    assert_eq!(append_entry(&mut store, "e4".into(), 5, "p1".into(), "t1".into()), Ok(11));
}

#[test]
fn append_to_unknown_playlist_fails_first() {
    let mut store = MusicStore::new();
    insert_track(&mut store, song("t1")).unwrap();
    assert_eq!(
        add_track_to_playlist(&mut store, "p9".into(), "t1".into()),
        Err(StoreError::PlaylistNotFound)
    );
    assert_eq!(
        add_track_to_playlist(&mut store, "p9".into(), "t9".into()),
        Err(StoreError::PlaylistNotFound)
    );
    assert!(store.playlist_tracks.is_empty());
}

#[test]
fn append_of_unknown_track_fails() {
    let mut store = MusicStore::new();
    insert_playlist(&mut store, list("p1")).unwrap();
    assert_eq!(
        add_track_to_playlist(&mut store, "p1".into(), "t9".into()),
        Err(StoreError::TrackNotFound)
    );
    assert!(store.playlist_tracks.is_empty());
}

#[test]
fn append_under_a_taken_entry_id_fails() {
    let mut store = MusicStore::new();
    insert_track(&mut store, song("t1")).unwrap();
    insert_playlist(&mut store, list("p1")).unwrap();
    append_entry(&mut store, "e1".into(), 5, "p1".into(), "t1".into()).unwrap();
    assert_eq!(
        append_entry(&mut store, "e1".into(), 5, "p1".into(), "t1".into()),
        Err(StoreError::DuplicateId)
    );
    assert_eq!(store.playlist_tracks.len(), 1);
    assert!(store.has_entry(&"e1".to_string()));
}

#[test]
fn append_beyond_the_largest_position_fails() {
    let mut store = MusicStore::new();
    insert_track(&mut store, song("t1")).unwrap();
    insert_playlist(&mut store, list("p1")).unwrap();
    store.playlist_tracks.push(entry("e1", "p1", "t1", u32::MAX));
    assert_eq!(
        append_entry(&mut store, "e2".into(), 5, "p1".into(), "t1".into()),
        Err(StoreError::PositionOverflow)
    );
    assert_eq!(store.playlist_tracks.len(), 1);
}

#[test]
fn listing_orders_by_position_whatever_the_stored_order() {
    let mut store = MusicStore::new();
    for id in ["t1", "t2", "t3", "t4"] {
        insert_track(&mut store, song(id)).unwrap();
    }
    insert_playlist(&mut store, list("p1")).unwrap();
    insert_playlist(&mut store, list("p2")).unwrap();
    store.playlist_tracks.push(entry("e1", "p1", "t3", 30));
    store.playlist_tracks.push(entry("e2", "p2", "t4", 1));
    store.playlist_tracks.push(entry("e3", "p1", "t1", 10));
    store.playlist_tracks.push(entry("e4", "p1", "t2", 20));
    let listed = get_playlist_tracks(&store, "p1".to_string()).unwrap();
    assert_eq!(ids(&listed), vec!["t1", "t2", "t3"]);
    let listed = get_playlist_tracks(&store, "p2".to_string()).unwrap();
    assert_eq!(ids(&listed), vec!["t4"]);
}

#[test]
fn listing_keeps_stored_order_among_equal_positions() {
    let mut store = MusicStore::new();
    for id in ["t1", "t2", "t3"] {
        insert_track(&mut store, song(id)).unwrap();
    }
    insert_playlist(&mut store, list("p1")).unwrap();
    store.playlist_tracks.push(entry("e1", "p1", "t2", 5));
    store.playlist_tracks.push(entry("e2", "p1", "t3", 1));
    store.playlist_tracks.push(entry("e3", "p1", "t1", 5));
    let listed = get_playlist_tracks(&store, "p1".to_string()).unwrap();
    assert_eq!(ids(&listed), vec!["t3", "t2", "t1"]);
}

#[test]
fn listing_leaves_out_entries_whose_track_is_gone() {
    let mut store = MusicStore::new();
    insert_track(&mut store, song("t1")).unwrap();
    insert_playlist(&mut store, list("p1")).unwrap();
    store.playlist_tracks.push(entry("e1", "p1", "gone", 1));
    store.playlist_tracks.push(entry("e2", "p1", "t1", 2));
    let listed = get_playlist_tracks(&store, "p1".to_string()).unwrap();
    assert_eq!(ids(&listed), vec!["t1"]);
}

#[test]
fn listing_of_unknown_playlist_fails() {
    let store = MusicStore::new();
    assert_eq!(
        get_playlist_tracks(&store, "p1".to_string()),
        Err(StoreError::PlaylistNotFound)
    );
}

#[test]
fn listing_of_empty_playlist_is_empty() {
    let mut store = MusicStore::new();
    insert_playlist(&mut store, list("p1")).unwrap();
    assert_eq!(get_playlist_tracks(&store, "p1".to_string()), Ok(vec![]));
}
