use now_playing::api::{
    artwork_from_base64, bearer_token_matches, content_type_for, now_playing_response, ApiError,
    NowPlayingStore, ARTWORK_URL,
};
use now_playing::model::{NowPlaying, Timestamp, UpdateNowPlayingRequest};

#[test]
fn bearer_token_must_match_exactly() {
    assert!(bearer_token_matches(Some("Bearer secret"), "secret"));
    assert!(!bearer_token_matches(Some("Bearer  secret"), "secret"));
    assert!(!bearer_token_matches(Some("bearer secret"), "secret"));
    assert!(!bearer_token_matches(Some("Bearer secret2"), "secret"));
    assert!(!bearer_token_matches(None, "secret"));
    assert!(bearer_token_matches(Some("Bearer "), ""));
}

#[test]
fn posted_artwork_is_decoded_and_typed() {
    let (stored, url) = artwork_from_base64(Some("  AQID\n")).unwrap();
    let art = stored.unwrap();
    assert_eq!(art.bytes, vec![1, 2, 3]);
    assert_eq!(art.content_type, "image/jpeg");
    assert_eq!(url.as_deref(), Some(ARTWORK_URL));
    let (stored, _) = artwork_from_base64(Some("iVBORw0KGgo=")).unwrap();
    assert_eq!(stored.unwrap().content_type, "image/png");
    assert_eq!(content_type_for(&vec![0x89, b'P', b'N']), "image/jpeg");
}

#[test]
fn missing_or_empty_artwork_clears_the_slot() {
    let (stored, url) = artwork_from_base64(None).unwrap();
    assert!(stored.is_none() && url.is_none());
    let (stored, url) = artwork_from_base64(Some("")).unwrap();
    assert!(stored.is_none() && url.is_none());
}

#[test]
fn invalid_artwork_is_a_bad_request() {
    match artwork_from_base64(Some("not base64!")) {
        Err(ApiError::BadRequest(message)) => assert_eq!(message, "invalid artwork_base64"),
        other => panic!("unexpected {other:?}"),
    }
}

#[test]
fn reads_answer_not_found_until_something_is_posted() {
    assert!(matches!(now_playing_response(None), Err(ApiError::NotFound)));
    let np = NowPlaying {
        track_name: "Song".into(),
        artist_name: "Artist".into(),
        album_name: "Album".into(),
        artwork_url: Some(ARTWORK_URL.into()),
        duration_seconds: None,
        position_seconds: Some(1),
        is_playing: false,
        listened_at: Timestamp { secs: 9, nanos: 1 },
    };
    let response = now_playing_response(Some(&np)).unwrap();
    assert_eq!(response.track_name, "Song");
    assert_eq!(response.artwork_url.as_deref(), Some(ARTWORK_URL));
    assert_eq!(response.listened_at.nanos, 1);
}

fn update(track: &str, artwork_base64: Option<&str>) -> UpdateNowPlayingRequest {
    UpdateNowPlayingRequest {
        track_name: track.into(),
        artist_name: "Artist".into(),
        album_name: "Album".into(),
        artwork_url: Some("https://example.com/cover.jpg".into()),
        artwork_base64: artwork_base64.map(String::from),
        duration_seconds: Some(200),
        position_seconds: Some(12),
        is_playing: true,
    }
}

#[test]
fn store_serves_what_was_posted() {
    let mut store = NowPlayingStore::new();
    assert!(matches!(store.read(), Err(ApiError::NotFound)));
    assert!(matches!(store.stored_artwork(), Err(ApiError::NotFound)));

    let png = vec![0x89, b'P', b'N', b'G', 1, 2, 3];
    let encoded = "iVBORwECAw==";
    store.apply_update_at(update("Song", Some(encoded)), Timestamp { secs: 50, nanos: 7 }).unwrap();

    let read = store.read().unwrap();
    assert_eq!(read.track_name, "Song");
    assert_eq!(read.artist_name, "Artist");
    assert_eq!(read.album_name, "Album");
    assert_eq!(read.artwork_url.as_deref(), Some(ARTWORK_URL));
    assert_eq!(read.duration_seconds, Some(200));
    assert_eq!(read.position_seconds, Some(12));
    assert!(read.is_playing);
    assert_eq!((read.listened_at.secs, read.listened_at.nanos), (50, 7));
    let art = store.stored_artwork().unwrap();
    assert_eq!(art.bytes, png);
    assert_eq!(art.content_type, "image/png");
}

#[test]
fn store_keeps_agent_artwork_url_without_artwork() {
    let mut store = NowPlayingStore::new();
    store.apply_update_at(update("Song", Some("AQID")), Timestamp { secs: 50, nanos: 7 }).unwrap();
    store.apply_update_at(update("Next", None), Timestamp { secs: 50, nanos: 7 }).unwrap();
    let read = store.read().unwrap();
    assert_eq!(read.track_name, "Next");
    assert_eq!(read.artwork_url.as_deref(), Some("https://example.com/cover.jpg"));
    assert!(matches!(store.stored_artwork(), Err(ApiError::NotFound)));
}

#[test]
fn refused_update_changes_nothing() {
    let mut store = NowPlayingStore::new();
    store.apply_update_at(update("Song", Some("AQID")), Timestamp { secs: 50, nanos: 7 }).unwrap();
    match store.apply_update_at(update("Other", Some("***")), Timestamp { secs: 50, nanos: 7 }) {
        Err(ApiError::BadRequest(message)) => assert_eq!(message, "invalid artwork_base64"),
        other => panic!("unexpected {other:?}"),
    }
    assert_eq!(store.read().unwrap().track_name, "Song");
    assert_eq!(store.stored_artwork().unwrap().bytes, vec![1, 2, 3]);
    assert_eq!(store.stored_artwork().unwrap().content_type, "image/jpeg");
}
