use music_library::catalog::{
    add_track, delete_track, folded_fields_contain, insert_track, list_tracks, search_tracks,
    update_track_metadata,
};
use music_library::favorites::insert_favorite;
use music_library::model::Track;
use music_library::playlists::{append_entry, insert_playlist};
use music_library::model::Playlist;
use music_library::store::{MusicStore, StoreError};

fn track(id: &str, title: &str, artist: &str, album: &str, genre: Option<&str>) -> Track {
    Track {
        id: id.to_string(),
        title: title.to_string(),
        artist: artist.to_string(),
        album: album.to_string(),
        genre: genre.map(|g| g.to_string()),
        year: Some(1999),
        duration_seconds: 200,
        file_path: format!("{}.mp3", id),
        file_size_bytes: 5000,
        date_added: 42,
    }
}

fn playlist(id: &str) -> Playlist {
    Playlist {
        id: id.to_string(),
        name: format!("list {}", id),
        owner_id: "owner".to_string(),
        description: None,
        date_created: 7,
        is_public: false,
    }
}

#[test]
fn added_track_is_found_with_its_fields() {
    let mut store = MusicStore::new();
    let id = add_track(
        &mut store,
        "Song A".to_string(),
        "Artist X".to_string(),
        "Album Y".to_string(),
        Some("Rock".to_string()),
        Some(1987),
        180,
        "a.mp3".to_string(),
        1000,
    )
    .unwrap();
    assert_eq!(id.len(), 16);
    let found = store.get_track(&id).unwrap();
    assert_eq!(found.id, id);
    assert_eq!(found.title, "Song A");
    assert_eq!(found.artist, "Artist X");
    assert_eq!(found.album, "Album Y");
    assert_eq!(found.genre, Some("Rock".to_string()));
    assert_eq!(found.year, Some(1987));
    assert_eq!(found.duration_seconds, 180);
    assert_eq!(found.file_path, "a.mp3");
    assert_eq!(found.file_size_bytes, 1000);
    assert!(found.date_added >= 1_500_000_000);
}

#[test]
fn added_track_keeps_absent_genre_and_year() {
    let mut store = MusicStore::new();
    let id = add_track(
        &mut store,
        "Song A".to_string(),
        "Artist X".to_string(),
        "Album Y".to_string(),
        None,
        None,
        180,
        "a.mp3".to_string(),
        1000,
    )
    .unwrap();
    let found = store.get_track(&id).unwrap();
    assert_eq!(found.genre, None);
    assert_eq!(found.year, None);
}

#[test]
fn tracks_may_share_title_and_artist() {
    let mut store = MusicStore::new();
    for _ in 0..3 {
        add_track(
            &mut store,
            "Same".to_string(),
            "Same".to_string(),
            "Same".to_string(),
            None,
            None,
            1,
            "s.mp3".to_string(),
            1,
        )
        .unwrap();
    }
    assert_eq!(store.tracks.len(), 3);
    assert_ne!(store.tracks[0].id, store.tracks[1].id);
}

#[test]
fn insert_track_refuses_a_taken_id() {
    let mut store = MusicStore::new();
    assert_eq!(insert_track(&mut store, track("t1", "One", "A", "B", None)), Ok(()));
    let before = store.tracks.len();
    assert_eq!(
        insert_track(&mut store, track("t1", "Other", "A", "B", None)),
        Err(StoreError::DuplicateId)
    );
    assert_eq!(store.tracks.len(), before);
    assert_eq!(store.tracks[0].title, "One");
}

#[test]
fn get_track_of_unknown_id_is_none() {
    let mut store = MusicStore::new();
    insert_track(&mut store, track("t1", "One", "A", "B", None)).unwrap();
    assert_eq!(store.get_track(&"t2".to_string()), None);
    assert!(store.has_track(&"t1".to_string()));
    assert!(!store.has_track(&"t2".to_string()));
    assert_eq!(store.find_track(&"t1".to_string()), Some(0));
}

#[test]
fn list_tracks_returns_all_in_order() {
    let mut store = MusicStore::new();
    assert!(list_tracks(&store).is_empty());
    insert_track(&mut store, track("t1", "One", "A", "B", None)).unwrap();
    insert_track(&mut store, track("t2", "Two", "A", "B", None)).unwrap();
    let all = list_tracks(&store);
    assert_eq!(all.len(), 2);
    assert_eq!(all[0], track("t1", "One", "A", "B", None));
    assert_eq!(all[1], track("t2", "Two", "A", "B", None));
}

#[test]
fn search_ignores_letter_case() {
    let mut store = MusicStore::new();
    insert_track(&mut store, track("t1", "Song A", "Artist X", "Album Y", None)).unwrap();
    insert_track(&mut store, track("t2", "Other", "Band", "Disc", None)).unwrap();
    let found = search_tracks(&store, "SONG".to_string());
    assert_eq!(found.len(), 1);
    assert_eq!(found[0].id, "t1");
    let found = search_tracks(&store, "song a".to_string());
    assert_eq!(found.len(), 1);
    assert_eq!(found[0].id, "t1");
}

#[test]
fn search_looks_at_title_artist_album_and_genre() {
    let mut store = MusicStore::new();
    insert_track(&mut store, track("t1", "Alpha", "Beta", "Gamma", Some("Delta"))).unwrap();
    insert_track(&mut store, track("t2", "One", "Two", "Three", None)).unwrap();
    for query in ["lph", "BET", "gamm", "delta"] {
        let found = search_tracks(&store, query.to_string());
        assert_eq!(found.len(), 1, "query {}", query);
        assert_eq!(found[0].id, "t1");
    }
    assert!(search_tracks(&store, "t1".to_string()).is_empty());
    assert!(search_tracks(&store, "mp3".to_string()).is_empty());
    assert!(search_tracks(&store, "absent".to_string()).is_empty());
}

#[test]
fn search_returns_matches_in_stored_order() {
    let mut store = MusicStore::new();
    insert_track(&mut store, track("t1", "Blue Moon", "A", "B", None)).unwrap();
    insert_track(&mut store, track("t2", "Red Sun", "A", "B", None)).unwrap();
    insert_track(&mut store, track("t3", "Moonlight", "A", "B", None)).unwrap();
    let found = search_tracks(&store, "moon".to_string());
    assert_eq!(found.len(), 2);
    assert_eq!(found[0].id, "t1");
    assert_eq!(found[1].id, "t3");
}

#[test]
fn empty_query_finds_every_track() {
    let mut store = MusicStore::new();
    insert_track(&mut store, track("t1", "One", "A", "B", None)).unwrap();
    insert_track(&mut store, track("t2", "", "", "", None)).unwrap();
    let found = search_tracks(&store, String::new());
    assert_eq!(found.len(), 2);
    assert_eq!(found[0].id, "t1");
    assert_eq!(found[1].id, "t2");
}

#[test]
fn folded_fields_contain_tests_each_field() {
    let title = "song a".to_string();
    let artist = "artist x".to_string();
    let album = "album y".to_string();
    let genre = Some("rock".to_string());
    let none: Option<String> = None;
    assert!(folded_fields_contain(&title, &artist, &album, &none, &"song".to_string()));
    assert!(folded_fields_contain(&title, &artist, &album, &none, &"st x".to_string()));
    assert!(folded_fields_contain(&title, &artist, &album, &none, &"bum".to_string()));
    assert!(folded_fields_contain(&title, &artist, &album, &genre, &"rock".to_string()));
    assert!(!folded_fields_contain(&title, &artist, &album, &none, &"rock".to_string()));
    assert!(!folded_fields_contain(&title, &artist, &album, &genre, &"Song".to_string()));
    assert!(folded_fields_contain(&title, &artist, &album, &none, &String::new()));
}

#[test]
fn update_with_title_only_changes_the_title_and_clears_genre_and_year() {
    let mut store = MusicStore::new();
    insert_track(&mut store, track("t1", "Old", "Artist", "Album", Some("Jazz"))).unwrap();
    let outcome = update_track_metadata(
        &mut store,
        "t1".to_string(),
        Some("New".to_string()),
        None,
        None,
        None,
        None,
    );
    assert_eq!(outcome, Ok(()));
    let mut expected = track("t1", "New", "Artist", "Album", None);
    expected.year = None;
    assert_eq!(store.tracks, vec![expected]);
}

#[test]
fn update_without_genre_clears_it_and_keeps_title_and_artist() {
    let mut store = MusicStore::new();
    insert_track(&mut store, track("t1", "Title", "Artist", "Album", Some("Jazz"))).unwrap();
    update_track_metadata(&mut store, "t1".to_string(), None, None, None, None, Some(2001))
        .unwrap();
    let found = store.get_track(&"t1".to_string()).unwrap();
    assert_eq!(found.title, "Title");
    assert_eq!(found.artist, "Artist");
    assert_eq!(found.album, "Album");
    assert_eq!(found.genre, None);
    assert_eq!(found.year, Some(2001));
}

#[test]
fn update_replaces_every_given_field_and_keeps_the_rest() {
    let mut store = MusicStore::new();
    insert_track(&mut store, track("t0", "Zero", "A", "B", None)).unwrap();
    insert_track(&mut store, track("t1", "Title", "Artist", "Album", None)).unwrap();
    update_track_metadata(
        &mut store,
        "t1".to_string(),
        Some("T".to_string()),
        Some("Ar".to_string()),
        Some("Al".to_string()),
        Some("Pop".to_string()),
        Some(2020),
    )
    .unwrap();
    let found = &store.tracks[1];
    assert_eq!(found.id, "t1");
    assert_eq!(found.title, "T");
    assert_eq!(found.artist, "Ar");
    assert_eq!(found.album, "Al");
    assert_eq!(found.genre, Some("Pop".to_string()));
    assert_eq!(found.year, Some(2020));
    assert_eq!(found.duration_seconds, 200);
    assert_eq!(found.file_path, "t1.mp3");
    assert_eq!(found.file_size_bytes, 5000);
    assert_eq!(found.date_added, 42);
    assert_eq!(store.tracks[0], track("t0", "Zero", "A", "B", None));
}

#[test]
fn update_of_unknown_track_changes_nothing() {
    let mut store = MusicStore::new();
    insert_track(&mut store, track("t1", "Title", "Artist", "Album", Some("Jazz"))).unwrap();
    let outcome = update_track_metadata(
        &mut store,
        "nope".to_string(),
        Some("New".to_string()),
        None,
        None,
        None,
        None,
    );
    assert_eq!(outcome, Err(StoreError::TrackNotFound));
    assert_eq!(store.tracks, vec![track("t1", "Title", "Artist", "Album", Some("Jazz"))]);
}

#[test]
fn delete_track_removes_entries_and_favorites_that_name_it() {
    let mut store = MusicStore::new();
    insert_track(&mut store, track("t1", "One", "A", "B", None)).unwrap();
    insert_track(&mut store, track("t2", "Two", "A", "B", None)).unwrap();
    insert_playlist(&mut store, playlist("p1")).unwrap();
    insert_playlist(&mut store, playlist("p2")).unwrap();
    append_entry(&mut store, "e1".into(), 1, "p1".into(), "t1".into()).unwrap();
    append_entry(&mut store, "e2".into(), 1, "p1".into(), "t2".into()).unwrap();
    append_entry(&mut store, "e3".into(), 1, "p2".into(), "t1".into()).unwrap();
    append_entry(&mut store, "e4".into(), 1, "p1".into(), "t1".into()).unwrap();
    insert_favorite(&mut store, "f1".into(), 1, "u1".into(), "t1".into()).unwrap();
    insert_favorite(&mut store, "f2".into(), 1, "u2".into(), "t1".into()).unwrap();
    insert_favorite(&mut store, "f3".into(), 1, "u1".into(), "t2".into()).unwrap();

    assert_eq!(delete_track(&mut store, "t1".to_string()), Ok(()));

    assert_eq!(store.tracks.len(), 1);
    assert_eq!(store.tracks[0].id, "t2");
    assert_eq!(store.playlist_tracks.len(), 1);
    assert_eq!(store.playlist_tracks[0].id, "e2");
    assert_eq!(store.playlist_tracks[0].position, 2);
    assert_eq!(store.user_favorites.len(), 1);
    assert_eq!(store.user_favorites[0].id, "f3");
    assert!(store.playlist_tracks.iter().all(|e| e.track_id != "t1"));
    assert!(store.user_favorites.iter().all(|f| f.track_id != "t1"));
    assert_eq!(store.playlists.len(), 2);
}

#[test]
fn delete_of_unknown_track_changes_nothing() {
    let mut store = MusicStore::new();
    insert_track(&mut store, track("t1", "One", "A", "B", None)).unwrap();
    insert_playlist(&mut store, playlist("p1")).unwrap();
    append_entry(&mut store, "e1".into(), 1, "p1".into(), "t1".into()).unwrap();
    assert_eq!(delete_track(&mut store, "t9".to_string()), Err(StoreError::TrackNotFound));
    assert_eq!(store.tracks.len(), 1);
    assert_eq!(store.playlist_tracks.len(), 1);
}

#[test]
fn positions_are_not_renumbered_after_a_deletion() {
    let mut store = MusicStore::new();
    insert_track(&mut store, track("t1", "One", "A", "B", None)).unwrap();
    insert_track(&mut store, track("t2", "Two", "A", "B", None)).unwrap();
    insert_playlist(&mut store, playlist("p1")).unwrap();
    append_entry(&mut store, "e1".into(), 1, "p1".into(), "t1".into()).unwrap();
    append_entry(&mut store, "e2".into(), 1, "p1".into(), "t2".into()).unwrap();
    delete_track(&mut store, "t1".to_string()).unwrap();
    assert_eq!(store.playlist_tracks[0].position, 2);
    assert_eq!(append_entry(&mut store, "e3".into(), 1, "p1".into(), "t2".into()), Ok(3));
}
