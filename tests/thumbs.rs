use picsort::thumbs::{
    frame_extraction_args, get_thumbnail_filename, next_frame_step, thumbnail_action,
    thumbnail_path, FrameAttempt, FrameStep, ThumbnailAction, ThumbnailBatchResult, ThumbnailResult,
};
use std::path::Path;

#[test]
fn test_get_thumbnail_filename() {
    let filename1 = get_thumbnail_filename("/path/to/image.jpg");
    let filename2 = get_thumbnail_filename("/path/to/image.jpg");
    let filename3 = get_thumbnail_filename("/path/to/other.png");
    assert_eq!(filename1, filename2);
    assert_ne!(filename1, filename3);
    assert!(filename1.ends_with(".jpg"));
}

#[test]
fn thumbnail_filename_is_truncated_sha256_in_hex() {
    assert_eq!(get_thumbnail_filename("abc"), "ba7816bf8f01cfea414140de5dae2223.jpg");
    assert_eq!(
        get_thumbnail_filename("/path/to/image.jpg"),
        "8741d2a6837e67fcb83c7911dd3c8b08.jpg"
    );
}

#[test]
fn thumbnail_path_is_in_cache_dir() {
    let p = thumbnail_path("/cache/thumbnails", "abc");
    assert_eq!(Path::new(&p), Path::new("/cache/thumbnails/ba7816bf8f01cfea414140de5dae2223.jpg"));
    assert_eq!(p, thumbnail_path("/cache/thumbnails", "abc"));
}

#[test]
fn cached_thumbnail_reused_only_when_newer() {
    assert_eq!(thumbnail_action("/a.jpg", true, Some(10), Some(11)), ThumbnailAction::UseCached);
    assert_eq!(thumbnail_action("/a.jpg", true, Some(10), Some(10)), ThumbnailAction::ResizeImage);
    assert_eq!(thumbnail_action("/a.jpg", true, Some(12), Some(11)), ThumbnailAction::ResizeImage);
    assert_eq!(thumbnail_action("/a.jpg", false, Some(10), Some(11)), ThumbnailAction::ResizeImage);
    assert_eq!(thumbnail_action("/a.jpg", true, None, Some(11)), ThumbnailAction::ResizeImage);
    assert_eq!(thumbnail_action("/a.jpg", true, Some(10), None), ThumbnailAction::ResizeImage);
    assert_eq!(
        thumbnail_action("/v.MP4", true, Some(12), Some(11)),
        ThumbnailAction::ExtractVideoFrame
    );
    assert_eq!(thumbnail_action("/v.mov", true, Some(1), Some(2)), ThumbnailAction::UseCached);
}

#[test]
fn frame_args_seek_five_seconds_first() {
    let args = frame_extraction_args("/in/v.mp4", "/out/t.jpg", 256, FrameAttempt::AtFiveSeconds);
    assert_eq!(
        args,
        vec![
            "-y",
            "-ss",
            "5",
            "-i",
            "/in/v.mp4",
            "-vf",
            "scale=256:256:force_original_aspect_ratio=decrease",
            "-frames:v",
            "1",
            "-q:v",
            "2",
            "/out/t.jpg",
        ]
    );
}

#[test]
fn frame_args_from_start_have_no_seek() {
    let args = frame_extraction_args("/in/v.mp4", "/out/t.jpg", 64, FrameAttempt::FromStart);
    assert_eq!(
        args,
        vec![
            "-y",
            "-i",
            "/in/v.mp4",
            "-vf",
            "scale=64:64:force_original_aspect_ratio=decrease",
            "-frames:v",
            "1",
            "-q:v",
            "2",
            "/out/t.jpg",
        ]
    );
}

#[test]
fn frame_steps_retry_once_from_start() {
    assert_eq!(next_frame_step(FrameAttempt::AtFiveSeconds, true), FrameStep::Done);
    assert_eq!(
        next_frame_step(FrameAttempt::AtFiveSeconds, false),
        FrameStep::Retry(FrameAttempt::FromStart)
    );
    assert_eq!(next_frame_step(FrameAttempt::FromStart, true), FrameStep::Done);
    assert_eq!(next_frame_step(FrameAttempt::FromStart, false), FrameStep::Fail);
}

#[test]
fn batch_keeps_successes_and_failures_apart() {
    let mut batch = ThumbnailBatchResult::new();
    batch.record(
        "/a.jpg".to_string(),
        Ok(ThumbnailResult {
            original_path: "/a.jpg".to_string(),
            thumbnail_path: "/c/a.jpg".to_string(),
        }),
    );
    batch.record("/b.jpg".to_string(), Err("File not found: /b.jpg".to_string()));
    batch.record(
        "/c.png".to_string(),
        Ok(ThumbnailResult {
            original_path: "/c.png".to_string(),
            thumbnail_path: "/c/c.jpg".to_string(),
        }),
    );
    assert_eq!(batch.results.len(), 2);
    assert_eq!(batch.results[0].original_path, "/a.jpg");
    assert_eq!(batch.results[1].thumbnail_path, "/c/c.jpg");
    assert_eq!(batch.errors.len(), 1);
    assert_eq!(batch.errors[0].path, "/b.jpg");
    assert_eq!(batch.errors[0].error, "File not found: /b.jpg");
}
