use chrono::{DateTime, TimeZone, Utc};
use now_playing::model::{
    extrapolated_position_seconds, GetNowPlayingResponse, NowPlaying, Timestamp,
    UpdateNowPlayingRequest,
};

fn stamp(at: DateTime<Utc>) -> Timestamp {
    Timestamp { secs: at.timestamp(), nanos: at.timestamp_subsec_nanos() }
}

fn record(duration: Option<u32>, position: Option<u32>, playing: bool, at: DateTime<Utc>) -> NowPlaying {
    NowPlaying {
        track_name: String::new(),
        artist_name: String::new(),
        album_name: String::new(),
        artwork_url: None,
        duration_seconds: duration,
        position_seconds: position,
        is_playing: playing,
        listened_at: stamp(at),
    }
}

#[test]
fn extrapolates_position_while_playing() {
    let listened_at = Utc.with_ymd_and_hms(2025, 1, 1, 12, 0, 0).unwrap();
    let now_playing = record(Some(300), Some(60), true, listened_at);

    let at = listened_at + chrono::Duration::seconds(45);
    assert_eq!(extrapolated_position_seconds(&now_playing, stamp(at)), 105);
}

#[test]
fn freezes_position_when_paused() {
    let listened_at = Utc.with_ymd_and_hms(2025, 1, 1, 12, 0, 0).unwrap();
    let now_playing = record(Some(300), Some(60), false, listened_at);

    let at = listened_at + chrono::Duration::seconds(120);
    assert_eq!(extrapolated_position_seconds(&now_playing, stamp(at)), 60);
}

#[test]
fn clamps_to_duration() {
    let listened_at = Utc.with_ymd_and_hms(2025, 1, 1, 12, 0, 0).unwrap();
    let now_playing = record(Some(100), Some(90), true, listened_at);

    let at = listened_at + chrono::Duration::seconds(30);
    assert_eq!(extrapolated_position_seconds(&now_playing, stamp(at)), 100);
}

#[test]
fn position_ignores_time_before_listening_and_partial_seconds() {
    let listened_at = Utc.with_ymd_and_hms(2025, 1, 1, 12, 0, 0).unwrap();
    let now_playing = record(None, Some(10), true, listened_at);
    let earlier = listened_at - chrono::Duration::seconds(50);
    assert_eq!(extrapolated_position_seconds(&now_playing, stamp(earlier)), 10);
    let almost = listened_at + chrono::Duration::milliseconds(2999);
    assert_eq!(extrapolated_position_seconds(&now_playing, stamp(almost)), 12);
    let no_position = record(None, None, true, listened_at);
    let later = listened_at + chrono::Duration::seconds(7);
    assert_eq!(extrapolated_position_seconds(&no_position, stamp(later)), 7);
}

#[test]
fn position_saturates_at_u32_max() {
    let listened_at = Utc.with_ymd_and_hms(2025, 1, 1, 12, 0, 0).unwrap();
    let now_playing = record(None, Some(u32::MAX - 1), true, listened_at);
    let at = listened_at + chrono::Duration::seconds(5);
    assert_eq!(extrapolated_position_seconds(&now_playing, stamp(at)), u32::MAX);
}

fn update() -> UpdateNowPlayingRequest {
    UpdateNowPlayingRequest {
        track_name: "Song".into(),
        artist_name: "Artist".into(),
        album_name: "Album".into(),
        artwork_url: Some("https://example.com/a.jpg".into()),
        artwork_base64: None,
        duration_seconds: Some(180),
        position_seconds: Some(12),
        is_playing: true,
    }
}

#[test]
fn server_artwork_url_takes_precedence() {
    let at = Timestamp { secs: 1_735_732_800, nanos: 5 };
    let np = update().into_now_playing_at(Some("/api/now-playing/artwork".into()), at);
    assert_eq!(np.artwork_url.as_deref(), Some("/api/now-playing/artwork"));
    assert_eq!(np.listened_at.secs, 1_735_732_800);
    let np = update().into_now_playing_at(None, at);
    assert_eq!(np.artwork_url.as_deref(), Some("https://example.com/a.jpg"));
    assert_eq!(np.track_name, "Song");
    assert_eq!(np.duration_seconds, Some(180));
}

#[test]
fn response_and_update_copy_the_record() {
    let at = Timestamp { secs: 42, nanos: 0 };
    let np = update().into_now_playing_at(None, at);
    let response = GetNowPlayingResponse::from_now_playing(np.clone());
    assert_eq!(response.album_name, "Album");
    assert_eq!(response.listened_at.secs, 42);
    let back = UpdateNowPlayingRequest::from_now_playing(np);
    assert_eq!(back.artwork_base64, None);
    assert_eq!(back.position_seconds, Some(12));
}
