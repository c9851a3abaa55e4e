use now_playing::agent::{
    after_post, build_update_request, cycle_status, login_menu_label, sync_decision, CycleOutcome, normalize_base_url, now_playing_url, AgentConfig, AgentStatus, ConfigError,
    PlaybackSnapshot, PreferencesAction, PreferencesState, SaveOutcome,
};
use now_playing::model::{NowPlaying, Timestamp};
use now_playing::music::TrackArtwork;
use now_playing::text::{decimal_string, parse_u64};

fn np(name: &str, artist: &str, playing: bool) -> NowPlaying {
    NowPlaying {
        track_name: name.into(),
        artist_name: artist.into(),
        album_name: "Album".into(),
        artwork_url: None,
        duration_seconds: Some(200),
        position_seconds: Some(3),
        is_playing: playing,
        listened_at: Timestamp { secs: 0, nanos: 0 },
    }
}

fn config(url: &str, token: &str, secs: u64) -> AgentConfig {
    AgentConfig { api_base_url: url.into(), auth_token: token.into(), poll_interval_secs: secs }
}

#[test]
fn snapshots_detect_track_and_play_state_changes() {
    let playing = np("Song", "Artist", true);
    let a = PlaybackSnapshot::from_track(Some(&playing));
    let b = PlaybackSnapshot::from_track(Some(&playing));
    assert!(!a.has_changed(&b));
    assert!(a == b);
    let paused = PlaybackSnapshot::from_track(Some(&np("Song", "Artist", false)));
    assert!(a.has_changed(&paused));
    let other = PlaybackSnapshot::from_track(Some(&np("Other", "Artist", true)));
    assert!(a.has_changed(&other));
    let empty = PlaybackSnapshot::empty();
    assert!(!PlaybackSnapshot::from_track(None).has_changed(&empty));
    assert!(empty.has_changed(&a));
}

#[test]
fn menu_labels() {
    assert_eq!(AgentStatus::Idle.menu_label(), "Status: Idle");
    assert_eq!(AgentStatus::Syncing.menu_label(), "Status: Syncing…");
    assert_eq!(AgentStatus::LastTrack("Song — Artist".into()).menu_label(), "Status: Song — Artist");
    assert_eq!(AgentStatus::Error("boom".into()).menu_label(), "Status: Error — boom");
    assert_eq!(login_menu_label(true), "Disable at Login");
    assert_eq!(login_menu_label(false), "Enable at Login");
}

#[test]
fn status_after_update_names_the_track() {
    let sent = PlaybackSnapshot::from_track(Some(&np("Song", "Artist", true)));
    match AgentStatus::after_update(&sent) {
        AgentStatus::LastTrack(label) => assert_eq!(label, "Song — Artist"),
        other => panic!("unexpected {other:?}"),
    }
    match AgentStatus::after_update(&PlaybackSnapshot::empty()) {
        AgentStatus::LastTrack(label) => assert_eq!(label, "Nothing playing"),
        other => panic!("unexpected {other:?}"),
    }
}

#[test]
fn config_from_environment_values() {
    let c = AgentConfig::from_env_values(None, Some("t".into()), None).unwrap();
    assert_eq!(c.api_base_url, "http://localhost:3000");
    assert_eq!(c.poll_interval_secs, 3);
    let c = AgentConfig::from_env_values(Some("http://h".into()), Some("t".into()), Some("5".into())).unwrap();
    assert_eq!(c.api_base_url, "http://h");
    assert_eq!(c.poll_interval_secs, 5);
    let c = AgentConfig::from_env_values(None, Some("t".into()), Some("soon".into())).unwrap();
    assert_eq!(c.poll_interval_secs, 3);
    assert_eq!(AgentConfig::from_env_values(None, None, None).unwrap_err(), ConfigError::MissingToken);
    assert_eq!(AgentConfig::from_env_values(None, Some("t".into()), Some("9".into())).unwrap_err(), ConfigError::PollIntervalOutOfRange);
    assert_eq!(ConfigError::MissingToken.message(), "NOW_PLAYING_TOKEN must be set in the environment");
}

#[test]
fn validation_rules() {
    assert!(config("u", "t", 2).validate().is_ok());
    assert!(config("u", "t", 5).validate().is_ok());
    assert_eq!(config("u", "  ", 3).validate().unwrap_err(), ConfigError::EmptyAuthToken);
    assert_eq!(config("u", "t", 1).validate().unwrap_err(), ConfigError::PollIntervalOutOfRange);
    assert_eq!(config("u", "t", 6).validate().unwrap_err(), ConfigError::PollIntervalOutOfRange);
    assert_eq!(AgentConfig::parse_poll_interval(4), Ok(4));
    assert_eq!(ConfigError::PollIntervalOutOfRange.message(), "poll_interval_secs must be between 2 and 5");
    assert_eq!(ConfigError::EmptyAuthToken.message(), "auth token must not be empty");
    let t = AgentConfig::default_template();
    assert_eq!((t.api_base_url.as_str(), t.auth_token.as_str(), t.poll_interval_secs), ("http://localhost:3000", "", 3));
    assert_eq!(t.poll_interval(), std::time::Duration::from_secs(3));
    assert!(config("u", "", 3).ready_to_poll().is_err());
    assert!(config("u", "t", 3).ready_to_poll().is_ok());
}

#[test]
fn preferences_round_trip_and_trimming() {
    let c = config("http://localhost:3000", "secret", 4);
    let mut form = PreferencesState::from_config(&c);
    assert_eq!(form.poll_interval_secs, "4");
    assert!(!form.visible);
    let back = form.build_config().unwrap();
    assert_eq!((back.api_base_url.as_str(), back.auth_token.as_str(), back.poll_interval_secs), ("http://localhost:3000", "secret", 4));
    form.api_base_url = "  http://x  ".into();
    form.auth_token = " tok ".into();
    form.poll_interval_secs = " 2 ".into();
    let edited = form.build_config().unwrap();
    assert_eq!((edited.api_base_url.as_str(), edited.auth_token.as_str(), edited.poll_interval_secs), ("http://x", "tok", 2));
    form.poll_interval_secs = "two".into();
    assert_eq!(form.build_config().unwrap_err(), ConfigError::PollIntervalNotNumber);
    assert_eq!(ConfigError::PollIntervalNotNumber.message(), "poll interval must be a number");
    form.poll_interval_secs = "3".into();
    form.auth_token = "   ".into();
    assert_eq!(form.build_config().unwrap_err(), ConfigError::EmptyAuthToken);
}

#[test]
fn preferences_open_close_and_save_messages() {
    let c = config("http://a", "t", 3);
    let mut form = PreferencesState::from_config(&config("http://b", "u", 5));
    form.validation_error = Some("old".into());
    form.open(&c);
    assert!(form.visible);
    assert_eq!(form.api_base_url, "http://a");
    assert!(form.validation_error.is_none());
    form.apply_save_result(Ok(()), SaveOutcome::Saved);
    assert_eq!(form.saved_message.as_deref(), Some("Settings saved"));
    form.apply_save_result(Ok(()), SaveOutcome::AgentStopped);
    assert_eq!(form.validation_error.as_deref(), Some("Agent is not running"));
    form.apply_save_result(Ok(()), SaveOutcome::StoreFailed("disk full".into()));
    assert_eq!(form.validation_error.as_deref(), Some("disk full"));
    form.apply_save_result(Err(ConfigError::EmptyAuthToken), SaveOutcome::Saved);
    assert_eq!(form.validation_error.as_deref(), Some("auth token must not be empty"));
    form.close();
    assert!(!form.visible);
    assert!(form.validation_error.is_none() && form.saved_message.is_none());
    assert_eq!(form.api_base_url, "http://a");
    assert_ne!(PreferencesAction::Save, PreferencesAction::NoAction);
}

#[test]
fn update_request_carries_track_and_artwork() {
    let track = np("Song", "Artist", true);
    let art = TrackArtwork { bytes: b"hello".to_vec(), content_type: "image/png" };
    let req = build_update_request(Some(&track), Some(art));
    assert_eq!(req.track_name, "Song");
    assert_eq!(req.artwork_base64.as_deref(), Some("aGVsbG8="));
    assert!(req.is_playing);
    let req = build_update_request(Some(&track), None);
    assert!(req.artwork_base64.is_none());
    let empty = build_update_request(None, None);
    assert!(empty.track_name.is_empty() && !empty.is_playing && empty.duration_seconds.is_none());
}

#[test]
fn decimal_parsing_follows_str_parse() {
    for s in ["0", "+5", "007", "18446744073709551615"] {
        assert_eq!(parse_u64(s), s.parse::<u64>().ok(), "{s}");
    }
    for s in ["", "+", "-1", " 3", "3 ", "18446744073709551616", "1e3", "++1"] {
        assert_eq!(parse_u64(s), None, "{s}");
    }
    assert_eq!(decimal_string(0), "0");
    assert_eq!(decimal_string(u64::MAX), u64::MAX.to_string());
}

#[test]
fn client_urls_drop_trailing_slashes() {
    assert_eq!(normalize_base_url("http://localhost:3000/"), "http://localhost:3000");
    assert_eq!(normalize_base_url("http://host//"), "http://host");
    assert_eq!(normalize_base_url("http://host"), "http://host");
    assert_eq!(normalize_base_url("///"), "");
    assert_eq!(now_playing_url("http://host"), "http://host/api/now-playing");
    assert_eq!(
        now_playing_url(&normalize_base_url("https://np.example.com/")),
        "https://np.example.com/api/now-playing"
    );
}

#[test]
fn agent_posts_only_on_change_and_advances_only_after_a_post() {
    let playing = np("Song", "Artist", true);
    let paused = np("Song", "Artist", false);
    let mut previous = PlaybackSnapshot::empty();

    assert!(sync_decision(&previous, None).is_none());
    assert!(sync_decision(&previous, Some(None)).is_none());

    let next = sync_decision(&previous, Some(Some(&playing))).expect("changed");
    assert_eq!(next, PlaybackSnapshot::from_track(Some(&playing)));
    after_post(&mut previous, next.clone(), false);
    assert_eq!(previous, PlaybackSnapshot::empty());
    after_post(&mut previous, next, true);
    assert_eq!(previous, PlaybackSnapshot::from_track(Some(&playing)));

    assert!(sync_decision(&previous, Some(Some(&playing))).is_none());
    let next = sync_decision(&previous, Some(Some(&paused))).expect("paused is a change");
    assert!(!next.is_playing);
    assert!(sync_decision(&previous, Some(None)).is_some());
}

#[test]
fn cycle_status_follows_the_outcome() {
    let sent = PlaybackSnapshot::from_track(Some(&np("Song", "Artist", true)));
    assert_eq!(cycle_status(CycleOutcome::NothingSent, &sent).menu_label(), "Status: Idle");
    assert_eq!(cycle_status(CycleOutcome::Sent, &sent).menu_label(), "Status: Song \u{2014} Artist");
    assert_eq!(
        cycle_status(CycleOutcome::Sent, &PlaybackSnapshot::empty()).menu_label(),
        "Status: Nothing playing"
    );
    assert_eq!(
        cycle_status(CycleOutcome::Failed("boom".into()), &sent).menu_label(),
        "Status: Error \u{2014} boom"
    );
}
