//! The now-playing card as SVG: layout, text escaping and truncation, time
//! labels, progress, and the card and idle templates.
use vstd::prelude::*;

use crate::api::StoredArtwork;
use crate::colors::{fallback_background, spec_fallback_background, SvgTheme};
use crate::encoding::{base64_encode, base64_encoded};
use crate::model::{extrapolated_position_seconds, spec_extrapolated_position, NowPlaying, Timestamp};
use crate::text::{chars_of, decimal, digit_char, has_infix, push_decimal};

verus! {

pub const WIDTH: u32 = 720;
pub const HEIGHT: u32 = 220;
pub const PADDING: u32 = 28;
pub const ART_GAP_ABOVE_PROGRESS: u32 = 12;
pub const BAR_Y: u32 = HEIGHT - 44;
pub const BAR_WIDTH: u32 = WIDTH - PADDING * 2;
pub const BAR_H: u32 = 5;
pub const ART_RX: u32 = 16;
pub const CARD_RX: u32 = 20;
pub const FONT_SANS: &'static str = "ui-sans-serif, system-ui, -apple-system, BlinkMacSystemFont, 'Segoe UI', Roboto, sans-serif";
/// Album art bottom edge; progress UI starts below this with `ART_GAP_ABOVE_PROGRESS`.
pub const ART_BOTTOM: u32 = BAR_Y - ART_GAP_ABOVE_PROGRESS;
pub const ART_SIZE: u32 = ART_BOTTOM - PADDING;
pub const TEXT_X: u32 = PADDING + ART_SIZE + 28;
pub const TRACK_FONT: u32 = 26;
pub const ARTIST_FONT: u32 = 16;
pub const ALBUM_FONT: u32 = 13;
pub const IDLE_MESSAGE_FONT: u32 = 18;
pub const TRACK_TO_ARTIST: u32 = 30;
pub const ARTIST_TO_ALBUM: u32 = 24;
pub const IDLE_MESSAGE: &'static str = "Not listening to anything";

/// Middle of the art column, between the top padding and the art's bottom edge.
pub open spec fn region_mid() -> int {
    (PADDING + ART_BOTTOM) / 2
}

/// Baselines of the track, artist and album lines: the text block (from the
/// track line's ascent to the album line's descent) centered on `region_mid`.
pub open spec fn spec_metadata_baselines() -> (u32, u32, u32) {
    let track_ascent = TRACK_FONT * 3 / 4;
    let album_descent = ALBUM_FONT / 4;
    let block_height = track_ascent + TRACK_TO_ARTIST + ARTIST_TO_ALBUM + album_descent;
    let block_top = region_mid() - block_height / 2;
    let track_y = block_top + track_ascent;
    ((track_y) as u32, (track_y + TRACK_TO_ARTIST) as u32, (track_y + TRACK_TO_ARTIST
        + ARTIST_TO_ALBUM) as u32)
}

/// Baselines for track, artist, and album — vertically centered in the art column.
pub fn metadata_baselines() -> (res: (u32, u32, u32))
    ensures
        res == spec_metadata_baselines(),
{
    let region_mid: u32 = (PADDING + ART_BOTTOM) / 2;
    let track_ascent: u32 = TRACK_FONT * 3 / 4;
    let album_descent: u32 = ALBUM_FONT / 4;
    let block_height: u32 = track_ascent + TRACK_TO_ARTIST + ARTIST_TO_ALBUM + album_descent;
    let block_top: u32 = region_mid.saturating_sub(block_height / 2);
    let track_y: u32 = block_top + track_ascent;
    let artist_y: u32 = track_y + TRACK_TO_ARTIST;
    let album_y: u32 = artist_y + ARTIST_TO_ALBUM;
    (track_y, artist_y, album_y)
}

/// The metadata block is centered in the art column: the middle of the
/// block, from the track line's ascent to the album line's descent, lies
/// within two units of the column's middle.
pub proof fn lemma_metadata_centered()
    ensures
        ({
            let (track_y, _, album_y) = spec_metadata_baselines();
            let block_mid = (track_y - TRACK_FONT * 3 / 4 + album_y + ALBUM_FONT / 4) / 2;
            -2 <= block_mid - region_mid() <= 2
        }),
{
}

/// The art square and its gap end above the progress bar.
pub proof fn lemma_art_clears_progress_bar()
    ensures
        PADDING + ART_SIZE + ART_GAP_ABOVE_PROGRESS <= BAR_Y,
{
}

/// Baseline of the idle message: centered in the art column by its ascent and descent.
pub open spec fn spec_idle_message_baseline() -> u32 {
    (region_mid() + (IDLE_MESSAGE_FONT * 3 / 4 - IDLE_MESSAGE_FONT / 4) / 2) as u32
}

/// Baseline for the centered idle message — vertically centered above the progress bar.
pub fn idle_message_baseline() -> (res: u32)
    ensures
        res == spec_idle_message_baseline(),
{
    let region_mid: u32 = (PADDING + ART_BOTTOM) / 2;
    let ascent: u32 = IDLE_MESSAGE_FONT * 3 / 4;
    let descent: u32 = IDLE_MESSAGE_FONT / 4;
    region_mid + (ascent.saturating_sub(descent)) / 2
}

/// A track is idle when it has no name: the idle card is shown instead.
pub open spec fn spec_is_idle(now_playing: NowPlaying) -> bool {
    now_playing.track_name@.len() == 0
}

pub fn is_idle(now_playing: &NowPlaying) -> (res: bool)
    ensures
        res == spec_is_idle(*now_playing),
{
    now_playing.track_name.as_str().is_empty()
}

/// XML text for one character: the five markup characters become entities.
pub open spec fn escape_char(c: char) -> Seq<char> {
    if c == '&' {
        "&amp;"@
    } else if c == '<' {
        "&lt;"@
    } else if c == '>' {
        "&gt;"@
    } else if c == '"' {
        "&quot;"@
    } else if c == '\'' {
        "&apos;"@
    } else {
        seq![c]
    }
}

/// `s` with each character escaped for XML text and attributes.
pub open spec fn spec_escape_xml(s: Seq<char>) -> Seq<char>
    decreases s.len(),
{
    if s.len() == 0 {
        Seq::empty()
    } else {
        spec_escape_xml(s.drop_last()) + escape_char(s.last())
    }
}

/// Escapes `&`, `<`, `>`, `"` and `'` as XML entities.
pub fn escape_xml(text: &str) -> (res: String)
    ensures
        res@ == spec_escape_xml(text@),
{
    let chars = chars_of(text);
    let mut out = String::new();
    let mut i: usize = 0;
    while i < chars.len()
        invariant
            i <= chars@.len(),
            chars@ == text@,
            out@ == spec_escape_xml(chars@.take(i as int)),
        decreases chars.len() - i,
    {
        let ch = chars[i];
        assert(chars@.take(i + 1).drop_last() =~= chars@.take(i as int));
        if ch == '&' {
            out.append("&amp;");
        } else if ch == '<' {
            out.append("&lt;");
        } else if ch == '>' {
            out.append("&gt;");
        } else if ch == '"' {
            out.append("&quot;");
        } else if ch == '\'' {
            out.append("&apos;");
        } else {
            out.push(ch);
        }
        i = i + 1;
    }
    assert(chars@.take(chars.len() as int) =~= chars@);
    out
}

/// The ellipsis that ends a shortened text.
pub open spec fn ellipsis() -> char {
    '\u{2026}'
}

/// Escaped `text`, shortened to at most `max_chars` characters (the last one
/// being an ellipsis) when the escaped form is longer.
pub open spec fn spec_truncate(text: Seq<char>, max_chars: nat) -> Seq<char> {
    let escaped = spec_escape_xml(text);
    if escaped.len() <= max_chars {
        escaped
    } else {
        let keep: nat = if max_chars >= 1 { (max_chars - 1) as nat } else { 0 };
        escaped.take(keep as int).push(ellipsis())
    }
}

/// Escapes `text` and shortens it to `max_chars` characters.
pub fn truncate(text: &str, max_chars: usize) -> (res: String)
    ensures
        res@ == spec_truncate(text@, max_chars as nat),
{
    let escaped = escape_xml(text);
    let chars = chars_of(escaped.as_str());
    if chars.len() <= max_chars {
        return escaped;
    }
    let keep: usize = max_chars.saturating_sub(1);
    let mut out = String::new();
    let mut i: usize = 0;
    while i < keep
        invariant
            i <= keep,
            keep < chars@.len(),
            chars@ == escaped@,
            out@ == chars@.take(i as int),
        decreases keep - i,
    {
        out.push(chars[i]);
        assert(chars@.take(i + 1) =~= chars@.take(i as int).push(chars@[i as int]));
        i = i + 1;
    }
    out.push('\u{2026}');
    out
}

/// Zero-padded two-digit notation of `n` (`n < 100`).
pub open spec fn two_digits(n: nat) -> Seq<char> {
    seq![digit_char((n / 10) as int), digit_char((n % 10) as int)]
}

/// `m:ss` for a number of seconds.
pub open spec fn spec_mm_ss(total_seconds: nat) -> Seq<char> {
    decimal(total_seconds / 60) + seq![':'] + two_digits(total_seconds % 60)
}

/// Minutes and zero-padded seconds (`format!("{minutes}:{seconds:02}")`).
pub fn format_mm_ss(total_seconds: u32) -> (res: String)
    ensures
        res@ == spec_mm_ss(total_seconds as nat),
{
    let minutes: u32 = total_seconds / 60;
    let seconds: u32 = total_seconds % 60;
    let mut out = String::new();
    push_decimal(&mut out, minutes as u64);
    out.push(':');
    let tens: u32 = seconds / 10;
    let ones: u32 = seconds % 10;
    out.push(((tens as u8) + 48) as char);
    out.push(((ones as u8) + 48) as char);
    assert(out@ =~= spec_mm_ss(total_seconds as nat));
    out
}

/// `data:` URL embedding the artwork in base64.
pub open spec fn spec_artwork_href(artwork: Option<StoredArtwork>) -> Option<Seq<char>> {
    match artwork {
        Some(art) => Some("data:"@ + art.content_type@ + ";base64,"@ + base64_encoded(art.bytes@)),
        None => None,
    }
}

/// Artwork bytes that base64 can encode without overflowing a `usize` length.
pub open spec fn artwork_fits(artwork: Option<StoredArtwork>) -> bool {
    artwork matches Some(art) ==> art.bytes@.len() <= usize::MAX / 2
}

pub fn artwork_image_href(artwork: Option<&StoredArtwork>) -> (res: Option<String>)
    requires
        artwork_fits(match artwork { Some(a) => Some(*a), None => None }),
    ensures
        match artwork {
            Some(art) => res matches Some(h) && Some(h@) == spec_artwork_href(Some(*art)),
            None => res is None,
        },
{
    match artwork {
        None => None,
        Some(art) => {
            let encoded = base64_encode(art.bytes.as_slice());
            let mut out = String::from_str("data:");
            out.append(art.content_type.as_str());
            out.append(";base64,");
            out.append(encoded.as_str());
            Some(out)
        },
    }
}

/// The art square: the image when there is one, else a placeholder with a note glyph.
pub open spec fn spec_artwork_foreground(href: Option<Seq<char>>, size: nat) -> Seq<char> {
    match href {
        Some(h) => image_template(size, h),
        None => placeholder_template(size, (PADDING + size / 2) as nat, (PADDING + size / 2) as nat),
    }
}

pub fn artwork_foreground(href: &Option<String>, size: u32) -> (res: String)
    ensures
        res@ == spec_artwork_foreground(
            match href {
                Some(h) => Some(h@),
                None => None,
            },
            size as nat,
        ),
{
    match href {
        Some(h) => fill_image_template(size as u64, h.as_str()),
        None => {
            let center: u64 = (PADDING + size / 2) as u64;
            fill_placeholder_template(size as u64, center, center)
        },
    }
}

} // verus!

verus! {

pub open spec fn card_template(track: Seq<char>, bg_gradient_defs: Seq<char>, bg_markup: Seq<char>, art_foreground: Seq<char>, track_y: nat, artist_y: nat, artist: Seq<char>, album_y: nat, album: Seq<char>, fill_width: nat, accent_color: Seq<char>, thumb_x: nat, thumb_opacity: Seq<char>, position_label: Seq<char>, duration_label: Seq<char>) -> Seq<char> {
    "<svg xmlns=\"http://www.w3.org/2000/svg\" width=\"720\" height=\"220\" viewBox=\"0 0 720 220\" role=\"img\" aria-label=\"Now playing: "@
        + track
        + "\">\n  <defs>\n"@
        + bg_gradient_defs
        + "    <linearGradient id=\"art-shine\" x1=\"0\" y1=\"0\" x2=\"0\" y2=\"1\">\n      <stop offset=\"0%\" stop-color=\"#ffffff\" stop-opacity=\"0.12\"/>\n      <stop offset=\"40%\" stop-color=\"#ffffff\" stop-opacity=\"0\"/>\n    </linearGradient>\n    <filter id=\"art-shadow\" x=\"-20%\" y=\"-10%\" width=\"140%\" height=\"130%\">\n      <feDropShadow dx=\"0\" dy=\"10\" stdDeviation=\"14\" flood-color=\"#000000\" flood-opacity=\"0.55\"/>\n    </filter>\n    <clipPath id=\"art-clip\">\n      <rect x=\"28\" y=\"28\" width=\"136\" height=\"136\" rx=\"16\"/>\n    </clipPath>\n    <clipPath id=\"card-clip\">\n      <rect width=\"720\" height=\"220\" rx=\"20\"/>\n    </clipPath>\n  </defs>\n  <g clip-path=\"url(#card-clip)\">\n"@
        + bg_markup
        + "\n    <g filter=\"url(#art-shadow)\" clip-path=\"url(#art-clip)\">\n      "@
        + art_foreground
        + "\n      <rect x=\"28\" y=\"28\" width=\"136\" height=\"136\" fill=\"url(#art-shine)\" pointer-events=\"none\"/>\n    </g>\n    <rect x=\"28\" y=\"28\" width=\"136\" height=\"136\" rx=\"16\" fill=\"none\" stroke=\"#ffffff\" stroke-opacity=\"0.1\" stroke-width=\"1\"/>\n    <rect x=\"28\" y=\"28\" width=\"136\" height=\"136\" rx=\"16\" fill=\"none\" stroke=\"#000000\" stroke-opacity=\"0.35\" stroke-width=\"1\" transform=\"translate(0 1)\"/>\n    <text x=\"192\" y=\""@
        + decimal(track_y)
        + "\" fill=\"#faf8f5\" font-family=\""@
        + FONT_SANS@
        + "\" font-size=\"26\" font-weight=\"700\" letter-spacing=\"-0.02em\">"@
        + track
        + "</text>\n    <text x=\"192\" y=\""@
        + decimal(artist_y)
        + "\" fill=\"#d8d4cc\" font-family=\""@
        + FONT_SANS@
        + "\" font-size=\"16\" font-weight=\"500\">"@
        + artist
        + "</text>\n    <text x=\"192\" y=\""@
        + decimal(album_y)
        + "\" fill=\"#8f8a82\" font-family=\""@
        + FONT_SANS@
        + "\" font-size=\"13\" font-weight=\"400\">"@
        + album
        + "</text>\n    <rect x=\"28\" y=\"176\" width=\"664\" height=\"5\" rx=\"3\" fill=\"#ffffff\" fill-opacity=\"0.08\"/>\n    <rect x=\"28\" y=\"176\" width=\""@
        + decimal(fill_width)
        + "\" height=\"5\" rx=\"3\" fill=\""@
        + accent_color
        + "\"/>\n    <circle cx=\""@
        + decimal(thumb_x)
        + "\" cy=\"178\" r=\"6\" fill=\""@
        + accent_color
        + "\" opacity=\""@
        + thumb_opacity
        + "\"/>\n    <text x=\"28\" y=\"196\" fill=\"#a39e94\" font-family=\""@
        + FONT_SANS@
        + "\" font-size=\"11\" font-variant-numeric=\"tabular-nums\" letter-spacing=\"0.04em\">"@
        + position_label
        + "</text>\n    <text x=\"692\" y=\"196\" fill=\"#a39e94\" font-family=\""@
        + FONT_SANS@
        + "\" font-size=\"11\" font-variant-numeric=\"tabular-nums\" letter-spacing=\"0.04em\" text-anchor=\"end\">"@
        + duration_label
        + "</text>\n  </g>\n  <rect width=\"720\" height=\"220\" rx=\"20\" fill=\"none\" stroke=\"#ffffff\" stroke-opacity=\"0.07\" stroke-width=\"1\"/>\n</svg>"@
}

/// Fills the card template of a track with its parts.
fn fill_card_template(track: &str, bg_gradient_defs: &str, bg_markup: &str, art_foreground: &str, track_y: u64, artist_y: u64, artist: &str, album_y: u64, album: &str, fill_width: u64, accent_color: &str, thumb_x: u64, thumb_opacity: &str, position_label: &str, duration_label: &str) -> (res: String)
    ensures
        res@ == card_template(track@, bg_gradient_defs@, bg_markup@, art_foreground@, track_y as nat, artist_y as nat, artist@, album_y as nat, album@, fill_width as nat, accent_color@, thumb_x as nat, thumb_opacity@, position_label@, duration_label@),
{
    let mut out = String::from_str("<svg xmlns=\"http://www.w3.org/2000/svg\" width=\"720\" height=\"220\" viewBox=\"0 0 720 220\" role=\"img\" aria-label=\"Now playing: ");
    out.append(track);
    out.append("\">\n  <defs>\n");
    out.append(bg_gradient_defs);
    out.append("    <linearGradient id=\"art-shine\" x1=\"0\" y1=\"0\" x2=\"0\" y2=\"1\">\n      <stop offset=\"0%\" stop-color=\"#ffffff\" stop-opacity=\"0.12\"/>\n      <stop offset=\"40%\" stop-color=\"#ffffff\" stop-opacity=\"0\"/>\n    </linearGradient>\n    <filter id=\"art-shadow\" x=\"-20%\" y=\"-10%\" width=\"140%\" height=\"130%\">\n      <feDropShadow dx=\"0\" dy=\"10\" stdDeviation=\"14\" flood-color=\"#000000\" flood-opacity=\"0.55\"/>\n    </filter>\n    <clipPath id=\"art-clip\">\n      <rect x=\"28\" y=\"28\" width=\"136\" height=\"136\" rx=\"16\"/>\n    </clipPath>\n    <clipPath id=\"card-clip\">\n      <rect width=\"720\" height=\"220\" rx=\"20\"/>\n    </clipPath>\n  </defs>\n  <g clip-path=\"url(#card-clip)\">\n");
    out.append(bg_markup);
    out.append("\n    <g filter=\"url(#art-shadow)\" clip-path=\"url(#art-clip)\">\n      ");
    out.append(art_foreground);
    out.append("\n      <rect x=\"28\" y=\"28\" width=\"136\" height=\"136\" fill=\"url(#art-shine)\" pointer-events=\"none\"/>\n    </g>\n    <rect x=\"28\" y=\"28\" width=\"136\" height=\"136\" rx=\"16\" fill=\"none\" stroke=\"#ffffff\" stroke-opacity=\"0.1\" stroke-width=\"1\"/>\n    <rect x=\"28\" y=\"28\" width=\"136\" height=\"136\" rx=\"16\" fill=\"none\" stroke=\"#000000\" stroke-opacity=\"0.35\" stroke-width=\"1\" transform=\"translate(0 1)\"/>\n    <text x=\"192\" y=\"");
    push_decimal(&mut out, track_y);
    out.append("\" fill=\"#faf8f5\" font-family=\"");
    out.append(FONT_SANS);
    out.append("\" font-size=\"26\" font-weight=\"700\" letter-spacing=\"-0.02em\">");
    out.append(track);
    out.append("</text>\n    <text x=\"192\" y=\"");
    push_decimal(&mut out, artist_y);
    out.append("\" fill=\"#d8d4cc\" font-family=\"");
    out.append(FONT_SANS);
    out.append("\" font-size=\"16\" font-weight=\"500\">");
    out.append(artist);
    out.append("</text>\n    <text x=\"192\" y=\"");
    push_decimal(&mut out, album_y);
    out.append("\" fill=\"#8f8a82\" font-family=\"");
    out.append(FONT_SANS);
    out.append("\" font-size=\"13\" font-weight=\"400\">");
    out.append(album);
    out.append("</text>\n    <rect x=\"28\" y=\"176\" width=\"664\" height=\"5\" rx=\"3\" fill=\"#ffffff\" fill-opacity=\"0.08\"/>\n    <rect x=\"28\" y=\"176\" width=\"");
    push_decimal(&mut out, fill_width);
    out.append("\" height=\"5\" rx=\"3\" fill=\"");
    out.append(accent_color);
    out.append("\"/>\n    <circle cx=\"");
    push_decimal(&mut out, thumb_x);
    out.append("\" cy=\"178\" r=\"6\" fill=\"");
    out.append(accent_color);
    out.append("\" opacity=\"");
    out.append(thumb_opacity);
    out.append("\"/>\n    <text x=\"28\" y=\"196\" fill=\"#a39e94\" font-family=\"");
    out.append(FONT_SANS);
    out.append("\" font-size=\"11\" font-variant-numeric=\"tabular-nums\" letter-spacing=\"0.04em\">");
    out.append(position_label);
    out.append("</text>\n    <text x=\"692\" y=\"196\" fill=\"#a39e94\" font-family=\"");
    out.append(FONT_SANS);
    out.append("\" font-size=\"11\" font-variant-numeric=\"tabular-nums\" letter-spacing=\"0.04em\" text-anchor=\"end\">");
    out.append(duration_label);
    out.append("</text>\n  </g>\n  <rect width=\"720\" height=\"220\" rx=\"20\" fill=\"none\" stroke=\"#ffffff\" stroke-opacity=\"0.07\" stroke-width=\"1\"/>\n</svg>");
    out
}

pub open spec fn idle_template(bg_markup: Seq<char>, message_y: nat) -> Seq<char> {
    "<svg xmlns=\"http://www.w3.org/2000/svg\" width=\"720\" height=\"220\" viewBox=\"0 0 720 220\" role=\"img\" aria-label=\"Not listening to anything\">\n  <defs>\n    <clipPath id=\"card-clip\">\n      <rect width=\"720\" height=\"220\" rx=\"20\"/>\n    </clipPath>\n  </defs>\n  <g clip-path=\"url(#card-clip)\">\n"@
        + bg_markup
        + "\n    <text x=\"360\" y=\""@
        + decimal(message_y)
        + "\" fill=\"#8f8a82\" font-family=\""@
        + FONT_SANS@
        + "\" font-size=\"18\" font-weight=\"500\" text-anchor=\"middle\">Not listening to anything</text>\n    <rect x=\"28\" y=\"176\" width=\"664\" height=\"5\" rx=\"3\" fill=\"#ffffff\" fill-opacity=\"0.08\"/>\n    <text x=\"28\" y=\"196\" fill=\"#a39e94\" font-family=\""@
        + FONT_SANS@
        + "\" font-size=\"11\" font-variant-numeric=\"tabular-nums\" letter-spacing=\"0.04em\">0:00</text>\n    <text x=\"692\" y=\"196\" fill=\"#a39e94\" font-family=\""@
        + FONT_SANS@
        + "\" font-size=\"11\" font-variant-numeric=\"tabular-nums\" letter-spacing=\"0.04em\" text-anchor=\"end\">0:00</text>\n  </g>\n  <rect width=\"720\" height=\"220\" rx=\"20\" fill=\"none\" stroke=\"#ffffff\" stroke-opacity=\"0.07\" stroke-width=\"1\"/>\n</svg>"@
}

/// Fills the card template shown while nothing plays.
fn fill_idle_template(bg_markup: &str, message_y: u64) -> (res: String)
    ensures
        res@ == idle_template(bg_markup@, message_y as nat),
{
    let mut out = String::from_str("<svg xmlns=\"http://www.w3.org/2000/svg\" width=\"720\" height=\"220\" viewBox=\"0 0 720 220\" role=\"img\" aria-label=\"Not listening to anything\">\n  <defs>\n    <clipPath id=\"card-clip\">\n      <rect width=\"720\" height=\"220\" rx=\"20\"/>\n    </clipPath>\n  </defs>\n  <g clip-path=\"url(#card-clip)\">\n");
    out.append(bg_markup);
    out.append("\n    <text x=\"360\" y=\"");
    push_decimal(&mut out, message_y);
    out.append("\" fill=\"#8f8a82\" font-family=\"");
    out.append(FONT_SANS);
    out.append("\" font-size=\"18\" font-weight=\"500\" text-anchor=\"middle\">Not listening to anything</text>\n    <rect x=\"28\" y=\"176\" width=\"664\" height=\"5\" rx=\"3\" fill=\"#ffffff\" fill-opacity=\"0.08\"/>\n    <text x=\"28\" y=\"196\" fill=\"#a39e94\" font-family=\"");
    out.append(FONT_SANS);
    out.append("\" font-size=\"11\" font-variant-numeric=\"tabular-nums\" letter-spacing=\"0.04em\">0:00</text>\n    <text x=\"692\" y=\"196\" fill=\"#a39e94\" font-family=\"");
    out.append(FONT_SANS);
    out.append("\" font-size=\"11\" font-variant-numeric=\"tabular-nums\" letter-spacing=\"0.04em\" text-anchor=\"end\">0:00</text>\n  </g>\n  <rect width=\"720\" height=\"220\" rx=\"20\" fill=\"none\" stroke=\"#ffffff\" stroke-opacity=\"0.07\" stroke-width=\"1\"/>\n</svg>");
    out
}

pub open spec fn placeholder_template(size: nat, center_x: nat, center_y: nat) -> Seq<char> {
    "<rect x=\"28\" y=\"28\" width=\""@
        + decimal(size)
        + "\" height=\""@
        + decimal(size)
        + "\" fill=\"#1a191e\"/>\n  <text x=\""@
        + decimal(center_x)
        + "\" y=\""@
        + decimal(center_y)
        + "\" fill=\"#5c584f\" font-family=\""@
        + FONT_SANS@
        + "\" font-size=\"52\" text-anchor=\"middle\" dominant-baseline=\"middle\">♪</text>"@
}

/// Fills the placeholder shown in place of missing album art.
fn fill_placeholder_template(size: u64, center_x: u64, center_y: u64) -> (res: String)
    ensures
        res@ == placeholder_template(size as nat, center_x as nat, center_y as nat),
{
    let mut out = String::from_str("<rect x=\"28\" y=\"28\" width=\"");
    push_decimal(&mut out, size);
    out.append("\" height=\"");
    push_decimal(&mut out, size);
    out.append("\" fill=\"#1a191e\"/>\n  <text x=\"");
    push_decimal(&mut out, center_x);
    out.append("\" y=\"");
    push_decimal(&mut out, center_y);
    out.append("\" fill=\"#5c584f\" font-family=\"");
    out.append(FONT_SANS);
    out.append("\" font-size=\"52\" text-anchor=\"middle\" dominant-baseline=\"middle\">♪</text>");
    out
}

pub open spec fn image_template(size: nat, href: Seq<char>) -> Seq<char> {
    "<image x=\"28\" y=\"28\" width=\""@
        + decimal(size)
        + "\" height=\""@
        + decimal(size)
        + "\" preserveAspectRatio=\"xMidYMid slice\" href=\""@
        + href
        + "\"/>"@
}

/// Fills the `<image>` element that shows album art.
fn fill_image_template(size: u64, href: &str) -> (res: String)
    ensures
        res@ == image_template(size as nat, href@),
{
    let mut out = String::from_str("<image x=\"28\" y=\"28\" width=\"");
    push_decimal(&mut out, size);
    out.append("\" height=\"");
    push_decimal(&mut out, size);
    out.append("\" preserveAspectRatio=\"xMidYMid slice\" href=\"");
    out.append(href);
    out.append("\"/>");
    out
}

} // verus!

verus! {

/// The idle card: fallback background and the centered idle message.
pub open spec fn spec_idle_svg() -> Seq<char> {
    idle_template(spec_fallback_background(WIDTH, HEIGHT), spec_idle_message_baseline() as nat)
}

pub fn render_idle_svg() -> (res: String)
    ensures
        res@ == spec_idle_svg(),
{
    let message_y = idle_message_baseline();
    let bg_markup = fallback_background(WIDTH, HEIGHT);
    fill_idle_template(bg_markup.as_str(), message_y as u64)
}

/// What the card shows: the record, its artwork and the instant to show it at.
pub struct SvgRenderInput<'a> {
    pub now_playing: &'a NowPlaying,
    pub artwork: Option<&'a StoredArtwork>,
    pub at: Timestamp,
}

/// Duration shown on the card: the known duration, else zero.
pub open spec fn shown_duration(np: NowPlaying) -> u32 {
    match np.duration_seconds {
        Some(d) => d,
        None => 0,
    }
}

/// The card for `np` at `at`: idle when no track is named; otherwise the
/// truncated names, the artwork (or its placeholder), the background and
/// accent of `theme`, the progress bar filled `fill` pixels with its thumb at
/// the fill's end (shown once the fill passes 4 pixels), and the time labels
/// at the extrapolated position.
pub open spec fn spec_render_now_playing(
    np: NowPlaying,
    artwork: Option<StoredArtwork>,
    at: Timestamp,
    theme: SvgTheme,
    fill: u32,
) -> Seq<char> {
    if spec_is_idle(np) {
        spec_idle_svg()
    } else {
        let position = spec_extrapolated_position(np, at);
        let duration = shown_duration(np);
        let (track_y, artist_y, album_y) = spec_metadata_baselines();
        card_template(
            spec_truncate(np.track_name@, 40),
            theme.defs@,
            theme.markup@,
            spec_artwork_foreground(spec_artwork_href(artwork), ART_SIZE as nat),
            track_y as nat,
            artist_y as nat,
            spec_truncate(np.artist_name@, 46),
            album_y as nat,
            spec_truncate(np.album_name@, 46),
            fill as nat,
            theme.accent@,
            (PADDING + fill) as nat,
            if fill > 4 {
                "1"@
            } else {
                "0"@
            },
            spec_mm_ss(position as nat),
            spec_mm_ss(duration as nat),
        )
    }
}

/// Renders the now-playing card. `theme` is the look taken from the artwork
/// (see `fallback_theme` for a card without artwork); `fill` is the filled
/// width of the progress bar in pixels, the bar's 664 pixels times the share
/// of the track played, as the caller rounds it.
pub fn render_now_playing_svg(input: SvgRenderInput<'_>, theme: &SvgTheme, fill: u32) -> (res:
    String)
    requires
        artwork_fits(
            match input.artwork {
                Some(a) => Some(*a),
                None => None,
            },
        ),
    ensures
        res@ == spec_render_now_playing(
            *input.now_playing,
            match input.artwork {
                Some(a) => Some(*a),
                None => None,
            },
            input.at,
            *theme,
            fill,
        ),
{
    if is_idle(input.now_playing) {
        return render_idle_svg();
    }
    let position: u32 = extrapolated_position_seconds(input.now_playing, input.at);
    let duration: u32 = match input.now_playing.duration_seconds {
        Some(d) => d,
        None => 0,
    };
    let thumb_x: u64 = PADDING as u64 + fill as u64;
    let (track_y, artist_y, album_y) = metadata_baselines();
    let track = truncate(input.now_playing.track_name.as_str(), 40);
    let artist = truncate(input.now_playing.artist_name.as_str(), 46);
    let album = truncate(input.now_playing.album_name.as_str(), 46);
    let position_label = format_mm_ss(position);
    let duration_label = format_mm_ss(duration);
    let art_image = artwork_image_href(input.artwork);
    let art_foreground = artwork_foreground(&art_image, ART_SIZE);
    let thumb_opacity = if fill > 4 { "1" } else { "0" };
    fill_card_template(
        track.as_str(),
        theme.defs.as_str(),
        theme.markup.as_str(),
        art_foreground.as_str(),
        track_y as u64,
        artist_y as u64,
        artist.as_str(),
        album_y as u64,
        album.as_str(),
        fill as u64,
        theme.accent.as_str(),
        thumb_x,
        thumb_opacity,
        position_label.as_str(),
        duration_label.as_str(),
    )
}

} // verus!

verus! {

/// Escaped text holds no raw markup character: `<`, `>`, `"` and `'` only
/// appear as entities.
pub proof fn lemma_escaped_has_no_markup(s: Seq<char>)
    ensures
        forall|i: int|
            0 <= i < spec_escape_xml(s).len() ==> {
                let c = #[trigger] spec_escape_xml(s)[i];
                c != '<' && c != '>' && c != '"' && c != '\''
            },
    decreases s.len(),
{
    if s.len() > 0 {
        lemma_escaped_has_no_markup(s.drop_last());
        let prev = spec_escape_xml(s.drop_last());
        let tail = escape_char(s.last());
        reveal_strlit("&amp;");
        reveal_strlit("&lt;");
        reveal_strlit("&gt;");
        reveal_strlit("&quot;");
        reveal_strlit("&apos;");
        assert forall|j: int| 0 <= j < tail.len() implies {
            let c = #[trigger] tail[j];
            c != '<' && c != '>' && c != '"' && c != '\''
        } by {}
        assert forall|i: int| 0 <= i < spec_escape_xml(s).len() implies {
            let c = #[trigger] spec_escape_xml(s)[i];
            c != '<' && c != '>' && c != '"' && c != '\''
        } by {
            if i >= prev.len() {
                assert(spec_escape_xml(s)[i] == tail[i - prev.len()]);
            } else {
                assert(spec_escape_xml(s)[i] == prev[i]);
            }
        }
    }
}

/// A truncated label is never longer than its limit (one character, the
/// ellipsis, when the limit is zero), and text that fits is kept whole.
pub proof fn lemma_truncate_fits(text: Seq<char>, max_chars: nat)
    ensures
        spec_truncate(text, max_chars).len() <= if max_chars == 0 { 1 } else { max_chars },
        spec_escape_xml(text).len() <= max_chars ==> spec_truncate(text, max_chars)
            == spec_escape_xml(text),
        spec_escape_xml(text).len() > max_chars ==> spec_truncate(text, max_chars).last()
            == ellipsis(),
{
}

} // verus!

verus! {

/// The card shows the names on their own lines: the track at the track
/// baseline in 26-point type, the artist at the artist baseline in 16-point
/// type and the album at the album baseline in 13-point type, each escaped and
/// cut to its limit.
pub proof fn lemma_card_shows_names(
    np: NowPlaying,
    artwork: Option<StoredArtwork>,
    at: Timestamp,
    theme: SvgTheme,
    fill: u32,
)
    requires
        !spec_is_idle(np),
    ensures
        has_infix(
            spec_render_now_playing(np, artwork, at, theme, fill),
            decimal(77) + "\" fill=\"#faf8f5\" font-family=\""@ + FONT_SANS@
                + "\" font-size=\"26\" font-weight=\"700\" letter-spacing=\"-0.02em\">"@
                + spec_truncate(np.track_name@, 40) + "</text>\n    <text x=\"192\" y=\""@,
        ),
        has_infix(
            spec_render_now_playing(np, artwork, at, theme, fill),
            decimal(107) + "\" fill=\"#d8d4cc\" font-family=\""@ + FONT_SANS@
                + "\" font-size=\"16\" font-weight=\"500\">"@ + spec_truncate(np.artist_name@, 46)
                + "</text>\n    <text x=\"192\" y=\""@,
        ),
        has_infix(
            spec_render_now_playing(np, artwork, at, theme, fill),
            decimal(131) + "\" fill=\"#8f8a82\" font-family=\""@ + FONT_SANS@
                + "\" font-size=\"13\" font-weight=\"400\">"@ + spec_truncate(np.album_name@, 46)
                + "</text>\n    <rect x=\"28\" y=\"176\" width=\"664\" height=\"5\" rx=\"3\" fill=\"#ffffff\" fill-opacity=\"0.08\"/>\n    <rect x=\"28\" y=\"176\" width=\""@,
        ),
{
    broadcast use crate::text::group_infix;
    assert(spec_metadata_baselines() == (77u32, 107u32, 131u32));
}


/// The card's time labels: on the left (x = 28) the elapsed time at `at`, the
/// extrapolated position; on the right, anchored at its end (x = 692), the
/// duration (0:00 when unknown). The bar is filled `fill` pixels in the accent
/// color, with its thumb at the fill's end.
pub proof fn lemma_card_progress_and_labels(
    np: NowPlaying,
    artwork: Option<StoredArtwork>,
    at: Timestamp,
    theme: SvgTheme,
    fill: u32,
)
    requires
        !spec_is_idle(np),
    ensures
        has_infix(
            spec_render_now_playing(np, artwork, at, theme, fill),
            "\"/>\n    <text x=\"28\" y=\"196\" fill=\"#a39e94\" font-family=\""@ + FONT_SANS@
                + "\" font-size=\"11\" font-variant-numeric=\"tabular-nums\" letter-spacing=\"0.04em\">"@
                + spec_mm_ss(spec_extrapolated_position(np, at) as nat)
                + "</text>\n    <text x=\"692\" y=\"196\" fill=\"#a39e94\" font-family=\""@,
        ),
        has_infix(
            spec_render_now_playing(np, artwork, at, theme, fill),
            "</text>\n    <text x=\"692\" y=\"196\" fill=\"#a39e94\" font-family=\""@ + FONT_SANS@
                + "\" font-size=\"11\" font-variant-numeric=\"tabular-nums\" letter-spacing=\"0.04em\" text-anchor=\"end\">"@
                + spec_mm_ss(
                match np.duration_seconds {
                    Some(d) => d as nat,
                    None => 0,
                },
            )
                + "</text>\n  </g>\n  <rect width=\"720\" height=\"220\" rx=\"20\" fill=\"none\" stroke=\"#ffffff\" stroke-opacity=\"0.07\" stroke-width=\"1\"/>\n</svg>"@,
        ),
        has_infix(
            spec_render_now_playing(np, artwork, at, theme, fill),
            decimal(fill as nat) + "\" height=\"5\" rx=\"3\" fill=\""@ + theme.accent@
                + "\"/>\n    <circle cx=\""@ + decimal(28 + fill as nat) + "\" cy=\"178\" r=\"6\" fill=\""@
                + theme.accent@ + "\" opacity=\""@,
        ),
{
    broadcast use crate::text::group_infix;
    let d: nat = match np.duration_seconds {
        Some(d) => d as nat,
        None => 0,
    };
    assert(shown_duration(np) as nat == d);
}

/// The card shows the artwork when there is some: the art square is the
/// image, embedded as a `data:` URL of its content type and its bytes in
/// base64; without artwork it is the placeholder with the note glyph.
pub proof fn lemma_card_shows_artwork(
    np: NowPlaying,
    artwork: Option<StoredArtwork>,
    at: Timestamp,
    theme: SvgTheme,
    fill: u32,
)
    requires
        !spec_is_idle(np),
    ensures
        artwork matches Some(art) ==> has_infix(
            spec_render_now_playing(np, artwork, at, theme, fill),
            "\n    <g filter=\"url(#art-shadow)\" clip-path=\"url(#art-clip)\">\n      "@
                + image_template(
                136,
                "data:"@ + art.content_type@ + ";base64,"@ + base64_encoded(art.bytes@),
            ),
        ),
        artwork is None ==> has_infix(
            spec_render_now_playing(np, artwork, at, theme, fill),
            "\n    <g filter=\"url(#art-shadow)\" clip-path=\"url(#art-clip)\">\n      "@
                + placeholder_template(136, 96, 96),
        ),
{
    broadcast use crate::text::group_infix;
    match artwork {
        Some(art) => {
            assert(spec_artwork_foreground(spec_artwork_href(artwork), ART_SIZE as nat)
                == image_template(136, "data:"@ + art.content_type@ + ";base64,"@ + base64_encoded(art.bytes@)));
        },
        None => {
            assert(spec_artwork_foreground(spec_artwork_href(artwork), ART_SIZE as nat)
                == placeholder_template(136, 96, 96));
        },
    }
}

} // verus!
