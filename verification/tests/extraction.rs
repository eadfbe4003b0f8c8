use mud::color::Color;
use mud::cover::{color_of_cover, cover_path};
use mud::lyrics::{lyrics_from_text, remove_lyrics_tags};
use mud::track::{ext_of, mime_of, AudioKind, Cover, CoverMime, RawTags, Track};

fn empty_tags() -> RawTags {
    RawTags {
        title: None,
        artists: vec![],
        album: None,
        album_artist: None,
        track_no: None,
        year: None,
        duration: 0,
        bitrate: 0,
        kind: AudioKind::Unknown,
        cover: None,
    }
}

#[test]
fn luminance_threshold_is_strict() {
    // Luminance is 0.2126 R + 0.7152 G + 0.0722 B; equal channels give the
    // channel value itself.
    let at_threshold = Color { r: 180, g: 180, b: 180 };
    assert!(!at_threshold.is_light_color());
    let above = Color { r: 181, g: 181, b: 181 };
    assert!(above.is_light_color());
}

#[test]
fn luminance_formula_exact_values() {
    // Pure red: 0.2126 * 255 = 54.2 -> dark.
    assert!(!Color { r: 255, g: 0, b: 0 }.is_light_color());
    // White is light, black is dark.
    assert!(Color { r: 255, g: 255, b: 255 }.is_light_color());
    assert!(!Color { r: 0, g: 0, b: 0 }.is_light_color());
    // Pure green: 0.7152 * 255 = 182.4 -> light.
    assert!(Color { r: 0, g: 255, b: 0 }.is_light_color());
}

#[test]
fn absent_tags_fall_back_to_defaults() {
    let raw = empty_tags();
    let t = Track::from_tags("/m/x.mp3".to_string(), &raw, "id0".to_string(), 7);
    assert_eq!(t.title, "@UNKNOWN@");
    assert_eq!(t.album, "@UNKNOWN@");
    assert!(t.artists.is_empty());
    assert_eq!(t.track, 0);
    assert_eq!(t.cover_ext, ".png");
    assert_eq!(t.mime, "application/octet-stream");
    assert_eq!(t.file_path, "/m/x.mp3");
    assert_eq!(t.id, "id0");
    assert_eq!(t.created_at, 7);
    assert!(t.color.is_none());
    assert!(t.is_light.is_none());
    assert!(t.lyrics.is_empty());
}

#[test]
fn mime_and_extension_mappings() {
    assert_eq!(mime_of(AudioKind::Flac), "audio/flac");
    assert_eq!(mime_of(AudioKind::Mpeg), "audio/mpeg");
    assert_eq!(mime_of(AudioKind::Opus), "audio/webm");
    assert_eq!(mime_of(AudioKind::Unknown), "application/octet-stream");
    assert_eq!(ext_of(&CoverMime::Png), ".png");
    assert_eq!(ext_of(&CoverMime::Jpeg), ".jpeg");
    assert_eq!(ext_of(&CoverMime::Other("webp".to_string())), ".webp");
}

#[test]
fn cover_extension_comes_from_the_tag() {
    let mut raw = empty_tags();
    raw.cover = Some(Cover { data: vec![1, 2, 3], ext: ".jpeg".to_string() });
    let t = Track::from_tags("/m/x.mp3".to_string(), &raw, "id1".to_string(), 0);
    assert_eq!(t.cover_ext, ".jpeg");
}

#[test]
fn cover_cache_path_is_deterministic() {
    let p1 = cover_path(&"/cache/covers".to_string(), &"abc123".to_string(), &".png".to_string());
    assert_eq!(p1, "/cache/covers/abc123.png");
    let p2 = cover_path(&"/cache/covers".to_string(), &"abc123".to_string(), &".png".to_string());
    assert_eq!(p1, p2);
}

#[test]
fn set_cover_color_classifies() {
    let raw = empty_tags();
    let mut t = Track::from_tags("/m/x.mp3".to_string(), &raw, "id2".to_string(), 0);
    t.set_cover_color(Color { r: 250, g: 250, b: 250 });
    assert_eq!(t.is_light, Some(true));
    assert_eq!(t.color.map(|c| c.r), Some(250));
}

#[test]
fn dominant_color_of_generated_cover() {
    let img = image::RgbImage::from_pixel(4, 4, image::Rgb([200, 30, 40]));
    let mut buf: Vec<u8> = Vec::new();
    image::DynamicImage::ImageRgb8(img)
        .write_to(&mut std::io::Cursor::new(&mut buf), image::ImageFormat::Png)
        .unwrap();
    let got = color_of_cover(&buf).expect("a decodable cover yields a colour");
    assert!(got.r > got.g);
    assert!(got.r > got.b);
}

#[test]
fn undecodable_cover_yields_no_color() {
    assert!(color_of_cover(&vec![0, 1, 2, 3]).is_none());
}

#[test]
fn untimed_lines_are_stripped() {
    let text = b"[ti:Some Title]\n[00:01.00] hello\nplain words\n[00:02.50] world".to_vec();
    let filtered = remove_lyrics_tags(&text);
    assert_eq!(
        String::from_utf8(filtered).unwrap(),
        "[00:01.00] hello\n[00:02.50] world"
    );
}

#[test]
fn short_lines_are_stripped_without_panicking() {
    let text = b"x\n\n[\n[7 ok".to_vec();
    let filtered = remove_lyrics_tags(&text);
    assert_eq!(String::from_utf8(filtered).unwrap(), "[7 ok");
}

#[test]
fn lyrics_parse_to_timestamped_lines() {
    let text = b"[ar:Somebody]\n[00:01.00] hello\n[00:02.50] world".to_vec();
    let lines = lyrics_from_text(&text);
    assert_eq!(lines.len(), 2);
    assert_eq!(lines[0].start_time, 1000);
    assert_eq!(lines[0].text.trim(), "hello");
    assert_eq!(lines[1].start_time, 2500);
    assert_eq!(lines[1].text.trim(), "world");
}

#[test]
fn lyrics_parse_failure_is_not_fatal() {
    let text = b"[00:xx.zz] broken".to_vec();
    let lines = lyrics_from_text(&text);
    assert!(lines.is_empty());
}

#[test]
fn fresh_track_ids_are_32_hex_digits() {
    let id = mud::track::fresh_track_id();
    assert_eq!(id.len(), 32);
    assert!(id.chars().all(|c| c.is_ascii_hexdigit()));
}
