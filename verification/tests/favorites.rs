use music_library::catalog::{delete_track, insert_track};
use music_library::favorites::{
    add_to_favorites, delete_favorite, favorite_tracks_of, get_favorite_tracks, insert_favorite,
    remove_from_favorites,
};
use music_library::model::{Track, UserFavorite};
use music_library::store::{MusicStore, StoreError};

fn song(id: &str) -> Track {
    Track {
        id: id.to_string(),
        title: format!("title {}", id),
        artist: "artist".to_string(),
        album: "album".to_string(),
        genre: None,
        year: None,
        duration_seconds: 100,
        file_path: "f.mp3".to_string(),
        file_size_bytes: 10,
        date_added: 1,
    }
}

fn favorite(id: &str, user: &str, track: &str) -> UserFavorite {
    UserFavorite {
        id: id.to_string(),
        user_id: user.to_string(),
        track_id: track.to_string(),
        date_added: 2,
    }
}

const ALICE: [u8; 32] = [0x11; 32];
const BOB: [u8; 32] = [0x22; 32];

#[test]
fn adding_a_favorite_twice_leaves_one_row() {
    let mut store = MusicStore::new();
    insert_track(&mut store, song("t1")).unwrap();
    assert_eq!(add_to_favorites(&mut store, &ALICE, "t1".to_string()), Ok(true));
    assert_eq!(add_to_favorites(&mut store, &ALICE, "t1".to_string()), Ok(false));
    assert_eq!(store.user_favorites.len(), 1);
    let row = &store.user_favorites[0];
    assert_eq!(row.user_id, "11".repeat(32));
    assert_eq!(row.track_id, "t1");
    assert_eq!(row.id.len(), 16);
    assert!(row.date_added >= 1_500_000_000);
}

#[test]
fn favorites_are_kept_per_user_and_per_track() {
    let mut store = MusicStore::new();
    insert_track(&mut store, song("t1")).unwrap();
    insert_track(&mut store, song("t2")).unwrap();
    assert_eq!(add_to_favorites(&mut store, &ALICE, "t1".to_string()), Ok(true));
    assert_eq!(add_to_favorites(&mut store, &BOB, "t1".to_string()), Ok(true));
    assert_eq!(add_to_favorites(&mut store, &ALICE, "t2".to_string()), Ok(true));
    assert_eq!(store.user_favorites.len(), 3);
    assert!(store.is_favorite(&"11".repeat(32), &"t2".to_string()));
    assert!(!store.is_favorite(&"22".repeat(32), &"t2".to_string()));
}

#[test]
fn favorite_of_unknown_track_fails() {
    let mut store = MusicStore::new();
    assert_eq!(
        add_to_favorites(&mut store, &ALICE, "t1".to_string()),
        Err(StoreError::TrackNotFound)
    );
    assert!(store.user_favorites.is_empty());
}

#[test]
fn insert_favorite_refuses_a_taken_row_id() {
    let mut store = MusicStore::new();
    insert_track(&mut store, song("t1")).unwrap();
    insert_track(&mut store, song("t2")).unwrap();
    assert_eq!(insert_favorite(&mut store, "f1".into(), 2, "u1".into(), "t1".into()), Ok(true));
    assert_eq!(
        insert_favorite(&mut store, "f1".into(), 2, "u1".into(), "t2".into()),
        Err(StoreError::DuplicateId)
    );
    assert_eq!(insert_favorite(&mut store, "f1".into(), 2, "u1".into(), "t1".into()), Ok(false));
    assert_eq!(store.user_favorites, vec![favorite("f1", "u1", "t1")]);
    assert!(store.has_favorite_id(&"f1".to_string()));
}

#[test]
fn removing_a_favorite_deletes_its_row_only() {
    let mut store = MusicStore::new();
    insert_track(&mut store, song("t1")).unwrap();
    insert_track(&mut store, song("t2")).unwrap();
    add_to_favorites(&mut store, &ALICE, "t1".to_string()).unwrap();
    add_to_favorites(&mut store, &ALICE, "t2".to_string()).unwrap();
    add_to_favorites(&mut store, &BOB, "t1".to_string()).unwrap();
    remove_from_favorites(&mut store, &ALICE, "t1".to_string());
    assert_eq!(store.user_favorites.len(), 2);
    assert_eq!(store.user_favorites[0].track_id, "t2");
    assert_eq!(store.user_favorites[1].user_id, "22".repeat(32));
    remove_from_favorites(&mut store, &ALICE, "t1".to_string());
    assert_eq!(store.user_favorites.len(), 2);
}

#[test]
fn removing_a_favorite_deletes_duplicates_too() {
    let mut store = MusicStore::new();
    insert_track(&mut store, song("t1")).unwrap();
    store.user_favorites.push(favorite("f1", "u1", "t1"));
    store.user_favorites.push(favorite("f2", "u2", "t1"));
    store.user_favorites.push(favorite("f3", "u1", "t1"));
    delete_favorite(&mut store, &"u1".to_string(), &"t1".to_string());
    assert_eq!(store.user_favorites, vec![favorite("f2", "u2", "t1")]);
}

#[test]
fn favorite_tracks_are_listed_per_user_in_order() {
    let mut store = MusicStore::new();
    for id in ["t1", "t2", "t3"] {
        insert_track(&mut store, song(id)).unwrap();
    }
    add_to_favorites(&mut store, &ALICE, "t3".to_string()).unwrap();
    add_to_favorites(&mut store, &BOB, "t2".to_string()).unwrap();
    add_to_favorites(&mut store, &ALICE, "t1".to_string()).unwrap();
    let listed = get_favorite_tracks(&store, &ALICE);
    assert_eq!(listed, vec![song("t3"), song("t1")]);
    let listed = get_favorite_tracks(&store, &BOB);
    assert_eq!(listed, vec![song("t2")]);
    assert!(get_favorite_tracks(&store, &[0u8; 32]).is_empty());
}

#[test]
fn favorite_tracks_leave_out_tracks_that_are_gone() {
    let mut store = MusicStore::new();
    insert_track(&mut store, song("t1")).unwrap();
    store.user_favorites.push(favorite("f1", "u1", "gone"));
    store.user_favorites.push(favorite("f2", "u1", "t1"));
    let listed = favorite_tracks_of(&store, &"u1".to_string());
    assert_eq!(listed, vec![song("t1")]);
}

#[test]
fn deleted_track_is_no_favorite_of_anyone() {
    let mut store = MusicStore::new();
    insert_track(&mut store, song("t1")).unwrap();
    insert_track(&mut store, song("t2")).unwrap();
    add_to_favorites(&mut store, &ALICE, "t1".to_string()).unwrap();
    add_to_favorites(&mut store, &BOB, "t1".to_string()).unwrap();
    add_to_favorites(&mut store, &BOB, "t2".to_string()).unwrap();
    delete_track(&mut store, "t1".to_string()).unwrap();
    assert!(get_favorite_tracks(&store, &ALICE).is_empty());
    assert_eq!(get_favorite_tracks(&store, &BOB), vec![song("t2")]);
    assert_eq!(store.user_favorites.len(), 1);
}
