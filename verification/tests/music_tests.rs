use now_playing::model::Timestamp;
use now_playing::music::{split_on_bars, AppleMusicProvider, MusicProviderError};

#[test]
fn parse_not_playing() {
    let result = AppleMusicProvider::parse_report("NOT_PLAYING").unwrap();
    assert!(result.is_none());
}

#[test]
fn parse_invalid_output() {
    let result = AppleMusicProvider::parse_report("bad");
    assert!(result.is_err());
}

#[test]
fn report_fields_are_split_and_trimmed() {
    let report = AppleMusicProvider::parse_report(" Song ||Artist||Album||258,56||19,31|| true")
        .unwrap()
        .unwrap();
    assert_eq!(report.track_name, "Song");
    assert_eq!(report.artist_name, "Artist");
    assert_eq!(report.album_name, "Album");
    assert_eq!(report.duration_text, "258,56");
    assert_eq!(report.position_text, "19,31");
    assert!(report.is_playing);
    let paused = AppleMusicProvider::parse_report("Song||Artist||Album||180||45||false")
        .unwrap()
        .unwrap();
    assert!(!paused.is_playing);
    let one = AppleMusicProvider::parse_report("a||b||c||1||2||1").unwrap().unwrap();
    assert!(one.is_playing);
}

#[test]
fn wrong_field_count_is_unexpected_output() {
    match AppleMusicProvider::parse_report("a||b||c") {
        Err(MusicProviderError::UnexpectedOutput(raw)) => assert_eq!(raw, "a||b||c"),
        other => panic!("unexpected {other:?}"),
    }
    assert!(AppleMusicProvider::parse_report("a||b||c||d||e||f||g").is_err());
}

#[test]
fn split_matches_str_split() {
    for raw in ["a|||b", "||", "", "a||", "|a|b|", "x||y||z"] {
        let expected: Vec<String> = raw.split("||").map(|s| s.to_string()).collect();
        assert_eq!(split_on_bars(raw), expected, "splitting {raw:?}");
    }
}

#[test]
fn report_becomes_record() {
    let report = AppleMusicProvider::parse_report("Song||Artist||Album||180||45||false")
        .unwrap()
        .unwrap();
    let np = report.into_now_playing(Some(180), Some(45), Timestamp { secs: 7, nanos: 0 });
    assert_eq!(np.track_name, "Song");
    assert_eq!(np.position_seconds, Some(45));
    assert!(np.artwork_url.is_none());
    assert!(!np.is_playing);
}

#[test]
fn artwork_script_and_outcome() {
    let script = AppleMusicProvider::artwork_script("/tmp/now-playing-artwork.jpg");
    assert!(script.contains(r#"set artPath to "/tmp/now-playing-artwork.jpg""#));
    assert!(script.contains("return \"NO_ART\""));
    assert_eq!(AppleMusicProvider::artwork_content_type("NOT_PLAYING"), None);
    assert_eq!(AppleMusicProvider::artwork_content_type("NO_ART"), None);
    assert_eq!(AppleMusicProvider::artwork_content_type("/tmp/a.png"), Some("image/png"));
    assert_eq!(AppleMusicProvider::artwork_content_type("/tmp/a.jpg"), Some("image/jpeg"));
    assert!(AppleMusicProvider::artwork_from_file(Vec::new(), "image/png").is_none());
    let art = AppleMusicProvider::artwork_from_file(vec![1, 2], "image/png").unwrap();
    assert_eq!(art.bytes, vec![1, 2]);
    assert_eq!(art.content_type, "image/png");
}
