//! Which files count as media: the supported extension sets, matched
//! on the lower-case form of the extension.
use vstd::prelude::*;
use crate::naming::{ext_of, split_name};

verus! {

/// The lower-case form of a string, as `str::to_lowercase` gives it.
pub uninterp spec fn lower_of(s: Seq<char>) -> Seq<char>;

/// Relies on `str::to_lowercase`: the full Unicode lower-case mapping,
/// which depends on the string alone.
#[verifier::external_body]
fn lowercase(s: &str) -> (r: String)
    ensures
        r@ == lower_of(s@),
{
    s.to_lowercase()
}

pub open spec fn is_image_ext(e: Seq<char>) -> bool {
    let l = lower_of(e);
    l == "jpg"@ || l == "jpeg"@ || l == "png"@ || l == "gif"@ || l == "bmp"@ || l == "webp"@
}

pub open spec fn is_video_ext(e: Seq<char>) -> bool {
    let l = lower_of(e);
    l == "mp4"@ || l == "webm"@ || l == "mov"@ || l == "mkv"@ || l == "avi"@ || l == "ogv"@
}

/// Extensions that a directory listing includes.
pub open spec fn is_media_ext(e: Seq<char>) -> bool {
    is_image_ext(e) || is_video_ext(e)
}

/// Extensions whose changes the watcher reports: the images and TIFF.
pub open spec fn is_watched_ext(e: Seq<char>) -> bool {
    is_image_ext(e) || lower_of(e) == "tiff"@ || lower_of(e) == "tif"@
}

/// The name has an extension, and it belongs to the set `kind`.
pub open spec fn name_ext_is(name: Seq<char>, kind: ExtKind) -> bool {
    match ext_of(name) {
        Some(e) => match kind {
            ExtKind::Media => is_media_ext(e),
            ExtKind::Video => is_video_ext(e),
            ExtKind::Watched => is_watched_ext(e),
        },
        None => false,
    }
}

/// The extension sets that the library distinguishes.
#[derive(Clone, Copy, PartialEq, Eq, Debug)]
pub enum ExtKind {
    Media,
    Video,
    Watched,
}

/// The final component of a path, as `std::path::Path::file_name` gives it.
pub uninterp spec fn path_file_name(p: Seq<char>) -> Option<Seq<char>>;

/// Relies on `std::path::Path::file_name`: the last normal component of the
/// path, `None` when the path ends in `..` or has no component.
#[verifier::external_body]
pub fn file_name_of(path: &str) -> (r: Option<String>)
    ensures
        match r {
            Some(n) => path_file_name(path@) == Some(n@),
            None => path_file_name(path@).is_none(),
        },
{
    std::path::Path::new(path).file_name().map(|n| n.to_string_lossy().to_string())
}

/// Whether `l` is the word `w`.
fn is_word(l: &String, w: &str) -> (r: bool)
    ensures
        r == (l@ == w@),
{
    let word = String::from_str(w);
    *l == word
}

fn ext_in(e: &str, kind: ExtKind) -> (r: bool)
    ensures
        r == match kind {
            ExtKind::Media => is_media_ext(e@),
            ExtKind::Video => is_video_ext(e@),
            ExtKind::Watched => is_watched_ext(e@),
        },
{
    let l = lowercase(e);
    let image = is_word(&l, "jpg") || is_word(&l, "jpeg") || is_word(&l, "png") || is_word(&l, "gif")
        || is_word(&l, "bmp") || is_word(&l, "webp");
    match kind {
        ExtKind::Watched => image || is_word(&l, "tiff") || is_word(&l, "tif"),
        _ => {
            let video = is_word(&l, "mp4") || is_word(&l, "webm") || is_word(&l, "mov") || is_word(
                &l,
                "mkv",
            ) || is_word(&l, "avi") || is_word(&l, "ogv");
            match kind {
                ExtKind::Video => video,
                _ => image || video,
            }
        },
    }
}

/// Whether the file name has an extension of the given set.
pub fn name_has_ext(name: &str, kind: ExtKind) -> (r: bool)
    ensures
        r == name_ext_is(name@, kind),
{
    let (_, ext) = split_name(name);
    match ext {
        Some(e) => ext_in(e.as_str(), kind),
        None => false,
    }
}

/// The path's final component has an extension of the given set.
pub open spec fn path_ext_is(path: Seq<char>, kind: ExtKind) -> bool {
    match path_file_name(path) {
        Some(n) => name_ext_is(n, kind),
        None => false,
    }
}

/// Whether the path names a video file, by its extension.
pub fn is_video_file(path: &str) -> (r: bool)
    ensures
        r == path_ext_is(path@, ExtKind::Video),
{
    match file_name_of(path) {
        Some(n) => name_has_ext(n.as_str(), ExtKind::Video),
        None => false,
    }
}

} // verus!
