//! The thumbnail cache: a content-addressed cache key per source path, the
//! decision between reuse and regeneration, the frame-extraction command
//! for videos, and the collection of batch outcomes.
use vstd::prelude::*;
use sha2::Digest;
use crate::media::{is_video_file, path_ext_is, ExtKind};
use crate::naming::{decimal, decimal_string};
use crate::paths::{join_path, joined_path};

verus! {

/// A thumbnail that is ready for a source file.
#[derive(Debug)]
pub struct ThumbnailResult {
    pub original_path: String,
    pub thumbnail_path: String,
}

/// A source file for which no thumbnail could be made, and why.
#[derive(Debug)]
pub struct ThumbnailError {
    pub path: String,
    pub error: String,
}

/// The outcome of a batch: the thumbnails made and the failures, each in
/// the order of the requests.
#[derive(Debug)]
pub struct ThumbnailBatchResult {
    pub results: Vec<ThumbnailResult>,
    pub errors: Vec<ThumbnailError>,
}

/// The SHA-256 digest of a byte sequence.
pub uninterp spec fn sha256_of(data: Seq<u8>) -> Seq<u8>;

/// Relies on `sha2::Sha256::digest`: the 32-byte SHA-256 digest of the
/// data, a function of the data alone.
#[verifier::external_body]
fn sha256(data: &[u8]) -> (r: Vec<u8>)
    ensures
        r@ == sha256_of(data@),
        r@.len() == 32,
{
    sha2::Sha256::digest(data).to_vec()
}

/// The lower-case hexadecimal digit of `d`.
pub open spec fn hex_digit(d: u8) -> char {
    if d < 10 {
        ((d + 48) as u8) as char
    } else {
        ((d + 87) as u8) as char
    }
}

/// Each byte as two lower-case hexadecimal digits, high nibble first.
pub open spec fn hex_of(b: Seq<u8>) -> Seq<char>
    decreases b.len(),
{
    if b.len() == 0 {
        Seq::empty()
    } else {
        hex_of(b.drop_last()) + seq![hex_digit(b.last() / 16), hex_digit(b.last() % 16)]
    }
}

/// Relies on `hex::encode`, which writes each byte as two lower-case
/// hexadecimal digits, high nibble first.
#[verifier::external_body]
fn hex_encode(b: &[u8]) -> (r: String)
    ensures
        r@ == hex_of(b@),
{
    hex::encode(b)
}

/// The file name under which the thumbnail of `original_path` is cached:
/// the first 16 bytes of the SHA-256 digest of the path's UTF-8 bytes, in
/// hexadecimal, followed by `.jpg`.
pub open spec fn cache_file_name(original_path: Seq<char>) -> Seq<char> {
    hex_of(sha256_of(vstd::utf8::encode_utf8(original_path)).take(16)) + ".jpg"@
}

/// The cache file name of a source path, as [`cache_file_name`] gives it.
pub fn get_thumbnail_filename(original_path: &str) -> (r: String)
    ensures
        r@ == cache_file_name(original_path@),
{
    let bytes = original_path.as_bytes();
    let digest = sha256(bytes);
    let mut head: Vec<u8> = Vec::new();
    let mut i: usize = 0;
    while i < 16
        invariant
            i <= 16,
            digest@.len() == 32,
            head@ == digest@.take(i as int),
        decreases 16 - i,
    {
        head.push(digest[i]);
        i = i + 1;
        assert(head@ =~= digest@.take(i as int));
    }
    let mut name = hex_encode(head.as_slice());
    name.append(".jpg");
    name
}

/// Where the thumbnail of `original_path` lives in `cache_dir`.
pub fn thumbnail_path(cache_dir: &str, original_path: &str) -> (r: String)
    ensures
        r@ == joined_path(cache_dir@, cache_file_name(original_path@)),
{
    let name = get_thumbnail_filename(original_path);
    join_path(cache_dir, name.as_str())
}

/// What a thumbnail request does.
#[derive(Clone, Copy, Debug, PartialEq, Eq)]
pub enum ThumbnailAction {
    /// The cached file is newer than the source: hand it out.
    UseCached,
    /// Extract a frame of the video into the cache file.
    ExtractVideoFrame,
    /// Decode, resize and re-encode the image into the cache file.
    ResizeImage,
}

/// A cached thumbnail is reused only when it exists and both modification
/// times are known, the cached one strictly later than the source's.
pub open spec fn is_fresh(
    cache_exists: bool,
    source_modified: Option<u128>,
    cache_modified: Option<u128>,
) -> bool {
    cache_exists && match (source_modified, cache_modified) {
        (Some(s), Some(c)) => c > s,
        _ => false,
    }
}

pub open spec fn action_for(
    source_path: Seq<char>,
    cache_exists: bool,
    source_modified: Option<u128>,
    cache_modified: Option<u128>,
) -> ThumbnailAction {
    if is_fresh(cache_exists, source_modified, cache_modified) {
        ThumbnailAction::UseCached
    } else if path_ext_is(source_path, ExtKind::Video) {
        ThumbnailAction::ExtractVideoFrame
    } else {
        ThumbnailAction::ResizeImage
    }
}

/// Decides a thumbnail request from the state of the cache. Times are in
/// nanoseconds since the Unix epoch; `None` where a time could not be read.
pub fn thumbnail_action(
    source_path: &str,
    cache_exists: bool,
    source_modified: Option<u128>,
    cache_modified: Option<u128>,
) -> (r: ThumbnailAction)
    ensures
        r == action_for(source_path@, cache_exists, source_modified, cache_modified),
{
    let fresh = cache_exists && match (source_modified, cache_modified) {
        (Some(s), Some(c)) => c > s,
        _ => false,
    };
    if fresh {
        ThumbnailAction::UseCached
    } else if is_video_file(source_path) {
        ThumbnailAction::ExtractVideoFrame
    } else {
        ThumbnailAction::ResizeImage
    }
}

/// Where frame extraction starts reading the video.
#[derive(Clone, Copy, Debug, PartialEq, Eq)]
pub enum FrameAttempt {
    /// Five seconds in, past the blank frames that many videos open with.
    AtFiveSeconds,
    /// At the start of the stream.
    FromStart,
}

/// What follows one frame-extraction attempt.
#[derive(Clone, Copy, Debug, PartialEq, Eq)]
pub enum FrameStep {
    Done,
    Retry(FrameAttempt),
    Fail,
}

/// A failed attempt five seconds in is retried from the start; a failed
/// attempt from the start ends the request.
pub fn next_frame_step(attempt: FrameAttempt, succeeded: bool) -> (r: FrameStep)
    ensures
        succeeded ==> r == FrameStep::Done,
        !succeeded && attempt == FrameAttempt::AtFiveSeconds ==> r == FrameStep::Retry(
            FrameAttempt::FromStart,
        ),
        !succeeded && attempt == FrameAttempt::FromStart ==> r == FrameStep::Fail,
{
    if succeeded {
        FrameStep::Done
    } else {
        match attempt {
            FrameAttempt::AtFiveSeconds => FrameStep::Retry(FrameAttempt::FromStart),
            FrameAttempt::FromStart => FrameStep::Fail,
        }
    }
}

/// The views of a sequence of strings.
pub open spec fn views(s: Seq<String>) -> Seq<Seq<char>> {
    s.map_values(|x: String| x@)
}

/// The scale filter: fit within `size` by `size`, keeping the aspect ratio.
pub open spec fn scale_filter(size: u32) -> Seq<char> {
    "scale="@ + decimal(size as nat) + ":"@ + decimal(size as nat)
        + ":force_original_aspect_ratio=decrease"@
}

/// The arguments of the `ffmpeg` call that writes one frame of `src`,
/// scaled to fit `size`, to `thumb`.
pub open spec fn frame_args(src: Seq<char>, thumb: Seq<char>, size: u32, attempt: FrameAttempt) -> Seq<
    Seq<char>,
> {
    let seek = match attempt {
        FrameAttempt::AtFiveSeconds => seq!["-ss"@, "5"@],
        FrameAttempt::FromStart => Seq::empty(),
    };
    seq!["-y"@] + seek + seq![
        "-i"@,
        src,
        "-vf"@,
        scale_filter(size),
        "-frames:v"@,
        "1"@,
        "-q:v"@,
        "2"@,
        thumb,
    ]
}

fn push_str(v: &mut Vec<String>, s: &str)
    ensures
        views(final(v)@) == views(old(v)@).push(s@),
{
    v.push(String::from_str(s));
    assert(views(final(v)@) =~= views(old(v)@).push(s@));
}

/// The `ffmpeg` arguments for one frame-extraction attempt.
pub fn frame_extraction_args(src: &str, thumb: &str, size: u32, attempt: FrameAttempt) -> (r: Vec<
    String,
>)
    ensures
        views(r@) == frame_args(src@, thumb@, size, attempt),
{
    let mut v: Vec<String> = Vec::new();
    assert(views(v@) =~= Seq::empty());
    push_str(&mut v, "-y");
    match attempt {
        FrameAttempt::AtFiveSeconds => {
            push_str(&mut v, "-ss");
            push_str(&mut v, "5");
        },
        FrameAttempt::FromStart => {},
    }
    push_str(&mut v, "-i");
    push_str(&mut v, src);
    push_str(&mut v, "-vf");
    let digits = decimal_string(size as u64);
    let mut filter = String::from_str("scale=");
    filter.append(digits.as_str());
    filter.append(":");
    filter.append(digits.as_str());
    filter.append(":force_original_aspect_ratio=decrease");
    push_str(&mut v, filter.as_str());
    push_str(&mut v, "-frames:v");
    push_str(&mut v, "1");
    push_str(&mut v, "-q:v");
    push_str(&mut v, "2");
    push_str(&mut v, thumb);
    assert(views(v@) =~= frame_args(src@, thumb@, size, attempt));
    v
}

impl ThumbnailBatchResult {
    /// A batch with no outcome yet.
    pub fn new() -> (r: ThumbnailBatchResult)
        ensures
            r.results@.len() == 0,
            r.errors@.len() == 0,
    {
        ThumbnailBatchResult { results: Vec::new(), errors: Vec::new() }
    }

    /// Files the outcome of the request for `path`: a thumbnail joins the
    /// results, a failure joins the errors with its message; nothing else
    /// changes.
    pub fn record(&mut self, path: String, outcome: Result<ThumbnailResult, String>)
        ensures
            match outcome {
                Ok(t) => final(self).results@ == old(self).results@.push(t)
                    && final(self).errors@ == old(self).errors@,
                Err(e) => final(self).errors@ == old(self).errors@.push(
                    ThumbnailError { path, error: e },
                ) && final(self).results@ == old(self).results@,
            },
    {
        match outcome {
            Ok(t) => self.results.push(t),
            Err(e) => self.errors.push(ThumbnailError { path, error: e }),
        }
    }
}

/// A second request for an unchanged source reuses the first one's work:
/// a cache file written after the source's last modification is handed out
/// as it is (the cache file of a source is fixed by [`thumbnail_path`]).
/// Once the source is modified again, at or after the cache file's time,
/// the request regenerates instead.
pub proof fn lemma_cache_reuse_and_staleness(
    source_path: Seq<char>,
    source_modified: u128,
    cache_modified: u128,
)
    ensures
        cache_modified > source_modified ==> action_for(
            source_path,
            true,
            Some(source_modified),
            Some(cache_modified),
        ) == ThumbnailAction::UseCached,
        cache_modified <= source_modified ==> action_for(
            source_path,
            true,
            Some(source_modified),
            Some(cache_modified),
        ) != ThumbnailAction::UseCached,
{
}

} // verus!
