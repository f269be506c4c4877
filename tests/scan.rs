use picsort::scan::{build_listing, shows_entry, EntryInfo, ImageInfo};

fn entry(name: &str) -> EntryInfo {
    EntryInfo {
        path: format!("/dir/{}", name),
        name: name.to_string(),
        is_symlink: false,
        size: Some(0),
        modified_at: Some(1_700_000_000),
    }
}

fn listing(names: &[&str]) -> Vec<ImageInfo> {
    build_listing(names.iter().map(|n| entry(n)).collect())
}

fn listed_names(v: &[ImageInfo]) -> Vec<&str> {
    v.iter().map(|i| i.name.as_str()).collect()
}

#[test]
fn test_scan_images_finds_supported_formats() {
    let result = listing(&["image1.jpg", "image2.png", "image3.gif"]);
    assert_eq!(result.len(), 3);
}

#[test]
fn test_scan_images_empty_folder() {
    let result = build_listing(Vec::new());
    assert!(result.is_empty());
}

#[test]
fn test_scan_images_filters_unsupported() {
    let result = listing(&["image.jpg", "document.pdf", "data.txt"]);
    assert_eq!(result.len(), 1);
    assert_eq!(result[0].name, "image.jpg");
}

#[test]
fn test_scan_images_case_insensitive() {
    let result = listing(&["image1.JPG", "image2.Png", "image3.GIF"]);
    assert_eq!(result.len(), 3);
}

#[test]
fn test_scan_images_sorted_naturally() {
    let result = listing(&["img2.jpg", "img10.jpg", "img1.jpg"]);
    assert_eq!(result[0].name, "img1.jpg");
    assert_eq!(result[1].name, "img2.jpg");
    assert_eq!(result[2].name, "img10.jpg");
}

#[test]
fn test_scan_images_excludes_hidden() {
    let result = listing(&["visible.jpg", ".hidden.jpg"]);
    assert_eq!(result.len(), 1);
    assert_eq!(result[0].name, "visible.jpg");
}

#[test]
fn test_scan_images_skips_symlinks() {
    let target = entry("target.jpg");
    let mut link = entry("link.jpg");
    link.is_symlink = true;
    let result = build_listing(vec![target, link]);
    assert_eq!(result.len(), 1);
    assert_eq!(result[0].name, "target.jpg");
}

#[test]
fn test_scan_images_emoji_filename() {
    let result = listing(&["🎉test🎨.jpg", "写真📷.png", "✨キラキラ✨.gif"]);
    assert_eq!(result.len(), 3);
    let names = listed_names(&result);
    assert!(names.contains(&"🎉test🎨.jpg"));
    assert!(names.contains(&"写真📷.png"));
    assert!(names.contains(&"✨キラキラ✨.gif"));
}

#[test]
fn test_scan_images_special_unicode() {
    let result = listing(&["𠮷野家.jpg", "café.png", "【重要】ファイル.gif"]);
    assert_eq!(result.len(), 3);
    let names = listed_names(&result);
    assert!(names.contains(&"𠮷野家.jpg"));
    assert!(names.contains(&"café.png"));
    assert!(names.contains(&"【重要】ファイル.gif"));
}

#[test]
fn listing_keeps_paths_and_metadata() {
    let mut e = entry("clip.MKV");
    e.size = None;
    e.modified_at = None;
    let result = build_listing(vec![e]);
    assert_eq!(result.len(), 1);
    assert_eq!(result[0].path, "/dir/clip.MKV");
    assert_eq!(result[0].size, None);
    assert_eq!(result[0].modified_at, None);
}

#[test]
fn listing_orders_numbers_by_value() {
    let result = listing(&["b.png", "a100.jpg", "a20.jpg", "a3.jpg", "rfc822.gif", "rfc1.gif"]);
    assert_eq!(
        listed_names(&result),
        vec!["a3.jpg", "a20.jpg", "a100.jpg", "b.png", "rfc1.gif", "rfc822.gif"]
    );
}

#[test]
fn shows_entry_rules() {
    assert!(shows_entry(&entry("a.webp")));
    assert!(!shows_entry(&entry(".a.webp")));
    assert!(!shows_entry(&entry("a.heic")));
    let mut l = entry("a.jpg");
    l.is_symlink = true;
    assert!(!shows_entry(&l));
}
