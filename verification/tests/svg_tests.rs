use chrono::{DateTime, TimeZone, Utc};
use now_playing::api::StoredArtwork;
use now_playing::colors::fallback_theme;
use now_playing::model::{NowPlaying, Timestamp};
use now_playing::svg::{
    artwork_foreground, artwork_image_href, escape_xml, format_mm_ss,
    idle_message_baseline, metadata_baselines, render_idle_svg, render_now_playing_svg,
    truncate, SvgRenderInput, ALBUM_FONT, ART_BOTTOM, ART_GAP_ABOVE_PROGRESS, ART_SIZE, BAR_Y,
    HEIGHT, PADDING, TRACK_FONT, WIDTH,
};

fn stamp(at: DateTime<Utc>) -> Timestamp {
    Timestamp { secs: at.timestamp(), nanos: at.timestamp_subsec_nanos() }
}

/// The bar's filled width as the server computes it.
fn fill_of(position: u32, duration: u32) -> u32 {
    let progress =
        if duration > 0 { (position as f64 / duration as f64).clamp(0.0, 1.0) } else { 0.0 };
    (664.0 * progress).round() as u32
}

fn track(name: &str, artist: &str, album: &str, duration: Option<u32>, position: Option<u32>, playing: bool, at: DateTime<Utc>) -> NowPlaying {
    NowPlaying {
        track_name: name.into(),
        artist_name: artist.into(),
        album_name: album.into(),
        artwork_url: None,
        duration_seconds: duration,
        position_seconds: position,
        is_playing: playing,
        listened_at: stamp(at),
    }
}

#[test]
fn renders_track_metadata() {
    let listened_at = Utc.with_ymd_and_hms(2025, 1, 1, 12, 0, 0).unwrap();
    let at = listened_at + chrono::Duration::seconds(30);
    let now_playing = track("Test Song", "Test Artist", "Test Album", Some(200), Some(10), true, listened_at);

    let svg = render_now_playing_svg(
        SvgRenderInput { now_playing: &now_playing, artwork: None, at: stamp(at) },
        &fallback_theme(WIDTH, HEIGHT),
        fill_of(40, 200),
    );

    assert!(svg.contains("Test Song"));
    assert!(svg.contains("Test Artist"));
    assert!(svg.contains("Test Album"));
    assert!(!svg.contains("thumb-glow"));
    assert!(svg.contains(r#"y="176""#));
    assert!(PADDING + ART_SIZE + ART_GAP_ABOVE_PROGRESS <= BAR_Y);
}

#[test]
fn metadata_is_vertically_centered_in_art_region() {
    let (track_y, _, album_y) = metadata_baselines();
    let region_mid = (PADDING + ART_BOTTOM) / 2;
    let block_mid = (track_y - TRACK_FONT * 3 / 4 + album_y + ALBUM_FONT / 4) / 2;
    let diff = block_mid.abs_diff(region_mid);
    assert!(diff <= 2, "expected mid {region_mid}, got {block_mid}");
}

#[test]
fn renders_idle_state_without_album_art() {
    let listened_at = Utc::now();
    let now_playing = track("", "", "", None, None, false, listened_at);

    let svg = render_now_playing_svg(
        SvgRenderInput { now_playing: &now_playing, artwork: None, at: stamp(listened_at) },
        &fallback_theme(WIDTH, HEIGHT),
        0,
    );

    assert!(svg.contains("Not listening to anything"));
    assert!(!svg.contains("art-clip"));
    assert!(!svg.contains("♪"));
}

#[test]
fn escapes_special_characters() {
    let listened_at = Utc::now();
    let now_playing = track("Rock & Roll", "A < B", "Album", Some(100), Some(0), false, listened_at);

    let svg = render_now_playing_svg(
        SvgRenderInput { now_playing: &now_playing, artwork: None, at: stamp(listened_at) },
        &fallback_theme(WIDTH, HEIGHT),
        fill_of(0, 100),
    );

    assert!(svg.contains("Rock &amp; Roll"));
    assert!(svg.contains("A &lt; B"));
    assert!(!svg.contains("PLAYING"));
    assert!(!svg.contains("PAUSED"));
}

#[test]
fn baselines_have_exact_values() {
    assert_eq!(metadata_baselines(), (77, 107, 131));
    assert_eq!(idle_message_baseline(), 100);
}

#[test]
fn time_labels_pad_seconds() {
    assert_eq!(format_mm_ss(0), "0:00");
    assert_eq!(format_mm_ss(61), "1:01");
    assert_eq!(format_mm_ss(3599), "59:59");
    assert_eq!(format_mm_ss(3600), "60:00");
}

#[test]
fn escape_covers_all_markup_characters() {
    assert_eq!(escape_xml(r#"<a href='x'>&"</a>"#), "&lt;a href=&apos;x&apos;&gt;&amp;&quot;&lt;/a&gt;");
    assert_eq!(escape_xml("plain ♪"), "plain ♪");
    assert_eq!(escape_xml(""), "");
}

#[test]
fn truncate_keeps_short_text_and_cuts_long_text() {
    assert_eq!(truncate("Song", 40), "Song");
    assert_eq!(truncate("abcdef", 6), "abcdef");
    assert_eq!(truncate("abcdefg", 6), "abcde…");
    assert_eq!(truncate("abc", 0), "…");
    assert_eq!(truncate("a&b", 4), "a&a…");
    let long = "x".repeat(100);
    assert_eq!(truncate(&long, 40).chars().count(), 40);
}

#[test]
fn progress_bar_draws_the_given_fill() {
    let listened_at = Utc.with_ymd_and_hms(2025, 1, 1, 12, 0, 0).unwrap();
    let now_playing = track("Song", "Artist", "Album", Some(1328), Some(7), false, listened_at);
    // 7 s of 1328 s: the f64 share gives 3.4999999999999996 pixels, drawn as 3.
    let fill = fill_of(7, 1328);
    assert_eq!(fill, 3);
    let svg = render_now_playing_svg(
        SvgRenderInput { now_playing: &now_playing, artwork: None, at: stamp(listened_at) },
        &fallback_theme(WIDTH, HEIGHT),
        fill,
    );
    assert!(svg.contains(r##"width="3" height="5" rx="3" fill="#f5d08a""##));
    assert!(svg.contains(r##"<circle cx="31" cy="178" r="6" fill="#f5d08a" opacity="0"/>"##));
    assert!(svg.contains(">0:07</text>"));
    assert!(svg.contains(">22:08</text>"));
}

#[test]
fn progress_and_labels_follow_extrapolated_position() {
    let listened_at = Utc.with_ymd_and_hms(2025, 1, 1, 12, 0, 0).unwrap();
    let at = listened_at + chrono::Duration::seconds(30);
    let now_playing = track("Song", "Artist", "Album", Some(200), Some(10), true, listened_at);
    let svg = render_now_playing_svg(
        SvgRenderInput { now_playing: &now_playing, artwork: None, at: stamp(at) },
        &fallback_theme(WIDTH, HEIGHT),
        fill_of(40, 200),
    );
    // 40 s of 200 s: 133 of 664 pixels.
    assert!(svg.contains(r##"width="133" height="5" rx="3" fill="#f5d08a""##));
    assert!(svg.contains(r##"<circle cx="161" cy="178" r="6" fill="#f5d08a" opacity="1"/>"##));
    assert!(svg.contains(">0:40</text>"));
    assert!(svg.contains(">3:20</text>"));
    assert!(svg.contains("♪"));
    assert!(svg.contains(r##"<rect width="720" height="220" fill="#121116"/>"##));
}

#[test]
fn artwork_is_embedded_as_data_url() {
    let art = StoredArtwork { bytes: vec![1, 2, 3], content_type: "image/png".to_string() };
    let href = artwork_image_href(Some(&art)).unwrap();
    assert_eq!(href, "data:image/png;base64,AQID");
    assert_eq!(artwork_image_href(None), None);
    let fg = artwork_foreground(&Some(href), 136);
    assert!(fg.starts_with(r#"<image x="28" y="28" width="136" height="136""#));
    assert!(fg.contains(r#"href="data:image/png;base64,AQID""#));
    let placeholder = artwork_foreground(&None, 136);
    assert!(placeholder.contains(r#"<text x="96" y="96""#));
}

#[test]
fn idle_card_uses_fallback_background() {
    let svg = render_idle_svg();
    assert!(svg.contains(r##"<rect width="720" height="220" fill="#121116"/>"##));
    assert!(svg.contains(r#"<text x="360" y="100""#));
    assert!(svg.ends_with("</svg>"));
}
