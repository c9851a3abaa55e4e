use image::{ImageBuffer, Rgba};
use now_playing::colors::{
    background_mesh, decode_thumbnail, fallback_background, fallback_theme, palette_from_pixels,
    rgb_to_hex, theme_or_fallback, BlobGeometry, SvgTheme, DetRng, Pixel, Rgb, BLOB_COUNT, FALLBACK_BG,
};

fn png_bytes(width: u32, height: u32, color_at: impl Fn(u32, u32) -> [u8; 4]) -> Vec<u8> {
    let mut img: ImageBuffer<Rgba<u8>, Vec<u8>> = ImageBuffer::new(width, height);
    for (x, y, pixel) in img.enumerate_pixels_mut() {
        *pixel = Rgba(color_at(x, y));
    }
    let mut bytes = Vec::new();
    img.write_to(&mut std::io::Cursor::new(&mut bytes), image::ImageFormat::Png).unwrap();
    bytes
}

fn px(r: u8, g: u8, b: u8, a: u8) -> Pixel {
    Pixel { r, g, b, a }
}

#[test]
fn hex_is_lower_case_and_padded() {
    assert_eq!(rgb_to_hex(Rgb { r: 255, g: 0, b: 16 }), "#ff0010");
    assert_eq!(rgb_to_hex(Rgb { r: 18, g: 17, b: 22 }), FALLBACK_BG);
}

#[test]
fn fallback_theme_has_no_defs_and_solid_background() {
    let theme = fallback_theme(720, 220);
    assert!(theme.defs.is_empty());
    assert_eq!(theme.markup, r##"<rect width="720" height="220" fill="#121116"/>"##);
    assert_eq!(theme.accent, "#f5d08a");
    assert_eq!(fallback_background(1, 2), r##"<rect width="1" height="2" fill="#121116"/>"##);
}

#[test]
fn palette_picks_distinct_regions() {
    let mut pixels = Vec::new();
    for x in 0..32u32 {
        for _ in 0..32 {
            pixels.push(if x < 11 {
                px(220, 40, 40, 255)
            } else if x < 22 {
                px(40, 180, 80, 255)
            } else {
                px(40, 80, 220, 255)
            });
        }
    }
    let colors = palette_from_pixels(&pixels, 3).expect("palette");
    // Red and green both cover 352 pixels; green's bucket (5, 22, 10) sorts
    // before red's (27, 5, 5). Blue covers 320.
    assert_eq!(colors, vec![Rgb { r: 40, g: 180, b: 80 }, Rgb { r: 220, g: 40, b: 40 }, Rgb { r: 40, g: 80, b: 220 }]);
}

#[test]
fn palette_ranks_by_frequency_then_bucket_and_averages() {
    let mut pixels = vec![px(200, 10, 10, 255); 3];
    pixels.extend(vec![px(10, 10, 200, 255); 5]);
    pixels.push(px(10, 10, 201, 255));
    pixels.extend(vec![px(10, 200, 10, 255); 3]);
    let colors = palette_from_pixels(&pixels, 4).unwrap();
    // Blue has most pixels (the average of 200 and 201 rounds down); red and
    // green tie, and green's bucket (1, 25, 1) sorts before red's (25, 1, 1).
    assert_eq!(colors, vec![Rgb { r: 10, g: 10, b: 200 }, Rgb { r: 10, g: 200, b: 10 }, Rgb { r: 200, g: 10, b: 10 }]);
}

#[test]
fn palette_skips_close_colors_transparent_pixels_and_stops_at_count() {
    let mut pixels = vec![px(100, 100, 100, 255); 4];
    pixels.extend(vec![px(120, 110, 100, 255); 3]);
    pixels.extend(vec![px(250, 0, 0, 100); 10]);
    pixels.extend(vec![px(0, 250, 0, 255); 2]);
    let colors = palette_from_pixels(&pixels, 4).unwrap();
    assert_eq!(colors, vec![Rgb { r: 100, g: 100, b: 100 }, Rgb { r: 0, g: 250, b: 0 }]);
    assert_eq!(palette_from_pixels(&pixels, 0), None);
    let one = palette_from_pixels(&pixels, 1).unwrap();
    assert_eq!(one, vec![Rgb { r: 100, g: 100, b: 100 }]);
    assert_eq!(palette_from_pixels(&vec![px(1, 2, 3, 0)], 4), None);
    assert_eq!(palette_from_pixels(&Vec::new(), 4), None);
}

#[test]
fn thumbnail_decodes_png_and_rejects_garbage() {
    let bytes = png_bytes(16, 16, |_, _| [180, 60, 200, 255]);
    let pixels = decode_thumbnail(&bytes).expect("decodes");
    assert_eq!(pixels.len(), 64 * 64);
    assert!(pixels.iter().all(|p| *p == Pixel { r: 180, g: 60, b: 200, a: 255 }));
    assert!(decode_thumbnail(b"not an image").is_none());
}

#[test]
fn thumbnail_palette_of_three_regions() {
    let bytes = png_bytes(32, 32, |x, _| {
        if x < 11 {
            [220, 40, 40, 255]
        } else if x < 22 {
            [40, 180, 80, 255]
        } else {
            [40, 80, 220, 255]
        }
    });
    let pixels = decode_thumbnail(&bytes).unwrap();
    let colors = palette_from_pixels(&pixels, 3).expect("palette");
    assert_eq!(colors.len(), 3);
}

#[test]
fn seeded_generator_is_fnv_then_xorshift() {
    let mut rng = DetRng::from_bytes(&[]);
    assert_eq!(rng.next_u64(), 4156492551529958947);
    assert_eq!(rng.next_u64(), 278897847510951679);
    let mut a = DetRng::from_bytes(b"abc");
    let mut b = DetRng::from_bytes(b"abc");
    assert_eq!(a.next_u64(), 7211002263991314213);
    assert_eq!(b.next_u64(), 7211002263991314213);
}

fn blob(i: usize) -> BlobGeometry {
    BlobGeometry { cx: format!("0.{i}000"), cy: "0.5000".into(), radius: "0.7500".into() }
}

#[test]
fn mesh_cycles_through_shades() {
    let shades = vec![Rgb { r: 1, g: 2, b: 3 }, Rgb { r: 4, g: 5, b: 6 }, Rgb { r: 7, g: 8, b: 9 }];
    let blobs: Vec<BlobGeometry> = (0..BLOB_COUNT).map(blob).collect();
    let (defs, markup) = background_mesh(&shades, Rgb { r: 1, g: 2, b: 3 }, &blobs, 720, 220);
    assert!(defs.starts_with(r#"    <filter id="bg-soften""#));
    assert!(defs.contains(r#"<radialGradient id="bg-blob-0" cx="0.0000" cy="0.5000" r="0.7500""#));
    assert!(defs.contains(r#"<radialGradient id="bg-blob-6""#));
    let stops: Vec<&str> = defs.match_indices("stop-color=\"").map(|(i, m)| &defs[i + m.len()..i + m.len() + 7]).collect();
    assert_eq!(stops.len(), 3 * BLOB_COUNT);
    assert_eq!(stops[0], "#010203");
    assert_eq!(stops[3], "#040506");
    assert_eq!(stops[9], "#010203");
    assert!(markup.starts_with(r##"    <rect width="720" height="220" fill="#010203"/>"##));
    assert!(markup.contains(r#"filter="url(#bg-soften)""#));
    assert!(markup.contains(r#"<rect width="720" height="220" fill="url(#bg-blob-6)"/>    </g>"#));
}

#[test]
fn theme_falls_back_without_a_palette() {
    let theme = theme_or_fallback(None, 720, 220);
    assert!(theme.defs.is_empty());
    assert!(theme.markup.contains(FALLBACK_BG));
    assert_eq!(theme.accent, "#f5d08a");
    let styled = SvgTheme { defs: "d".into(), markup: "m".into(), accent: "#010203".into() };
    let kept = theme_or_fallback(Some(styled), 720, 220);
    assert_eq!((kept.defs.as_str(), kept.markup.as_str(), kept.accent.as_str()), ("d", "m", "#010203"));
}
