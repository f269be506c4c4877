use picsort::media::{file_name_of, is_video_file, name_has_ext, ExtKind};
use picsort::naming::{candidate_name, decimal_string, split_name};

#[test]
fn test_is_video_file() {
    assert!(is_video_file("/test/video.mp4"));
    assert!(is_video_file("/test/video.MP4"));
    assert!(is_video_file("/test/video.webm"));
    assert!(!is_video_file("/test/image.jpg"));
    assert!(!is_video_file("/test/image.png"));
}

#[test]
fn video_extensions_all_recognised() {
    for name in ["a.mp4", "a.webm", "a.mov", "a.mkv", "a.avi", "a.ogv", "a.MoV"] {
        assert!(name_has_ext(name, ExtKind::Video), "{}", name);
        assert!(name_has_ext(name, ExtKind::Media), "{}", name);
    }
    assert!(!name_has_ext("a.mp3", ExtKind::Video));
    assert!(!is_video_file("/test/noext"));
    assert!(!is_video_file("/"));
}

#[test]
fn media_extensions_ignore_ascii_case() {
    for name in ["x.jpg", "x.JPEG", "x.Png", "x.GIF", "x.bmp", "x.WebP"] {
        assert!(name_has_ext(name, ExtKind::Media), "{}", name);
    }
    assert!(!name_has_ext("x.pdf", ExtKind::Media));
    assert!(!name_has_ext("x.txt", ExtKind::Media));
    assert!(!name_has_ext("x.tiff", ExtKind::Media));
    assert!(!name_has_ext("jpg", ExtKind::Media));
    assert!(!name_has_ext(".jpg", ExtKind::Media));
}

#[test]
fn watched_extensions_include_tiff() {
    assert!(name_has_ext("scan.TIFF", ExtKind::Watched));
    assert!(name_has_ext("scan.tif", ExtKind::Watched));
    assert!(name_has_ext("photo.jpg", ExtKind::Watched));
    assert!(!name_has_ext("clip.mp4", ExtKind::Watched));
}

#[test]
fn extensions_use_full_unicode_lowercase() {
    // KELVIN SIGN lowercases to `k`.
    assert!(name_has_ext("clip.m\u{212A}v", ExtKind::Video));
    assert!(is_video_file("/v/clip.m\u{212A}V"));
    assert!(name_has_ext("x.\u{212A}", ExtKind::Media) == false);
    assert!(!name_has_ext("x.jpé", ExtKind::Media));
}

#[test]
fn file_name_is_last_component() {
    assert_eq!(file_name_of("/a/b/photo.jpg"), Some("photo.jpg".to_string()));
    assert_eq!(file_name_of("/a/b/"), Some("b".to_string()));
    assert_eq!(file_name_of("/"), None);
    assert_eq!(file_name_of("a/.."), None);
}

#[test]
fn split_name_follows_last_dot() {
    assert_eq!(split_name("photo.jpg"), ("photo".to_string(), Some("jpg".to_string())));
    assert_eq!(split_name("a.tar.gz"), ("a.tar".to_string(), Some("gz".to_string())));
    assert_eq!(split_name("noext"), ("noext".to_string(), None));
    assert_eq!(split_name(".hidden"), (".hidden".to_string(), None));
    assert_eq!(split_name("trail."), ("trail".to_string(), Some("".to_string())));
    assert_eq!(split_name(".."), ("..".to_string(), None));
    assert_eq!(split_name("写真📷.png"), ("写真📷".to_string(), Some("png".to_string())));
}

#[test]
fn decimal_string_writes_digits() {
    assert_eq!(decimal_string(0), "0");
    assert_eq!(decimal_string(7), "7");
    assert_eq!(decimal_string(10), "10");
    assert_eq!(decimal_string(999), "999");
    assert_eq!(decimal_string(u64::MAX), "18446744073709551615");
}

#[test]
fn candidate_names_append_counter_before_extension() {
    assert_eq!(candidate_name("photo.jpg", 0), "photo.jpg");
    assert_eq!(candidate_name("photo.jpg", 1), "photo_1.jpg");
    assert_eq!(candidate_name("photo.jpg", 12), "photo_12.jpg");
    assert_eq!(candidate_name("README", 2), "README_2");
    assert_eq!(candidate_name("🎀ribbon🎀.jpg", 2), "🎀ribbon🎀_2.jpg");
}
