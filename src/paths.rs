//! Collision-free destination paths, and the checks that precede a move.
use vstd::prelude::*;
use crate::media::{file_name_of, path_file_name};
use crate::naming::{candidate, candidate_name};

verus! {

/// The largest counter appended to a name before allocation gives up.
pub const MAX_SUFFIX: u64 = 999;

/// Why a file operation could not go ahead.
#[derive(Clone, Debug, PartialEq, Eq)]
pub enum FileOpError {
    /// The source path does not exist.
    NotFound(String),
    /// The path is not a directory.
    NotADirectory(String),
    /// The path has no final file-name component.
    InvalidName(String),
    /// Every candidate name up to [`MAX_SUFFIX`] is taken.
    NameSpaceExhausted,
}

/// `"<prefix><path>"`.
fn prefixed(prefix: &str, path: &String) -> (r: String)
    ensures
        r@ == prefix@ + path@,
{
    let mut r = String::from_str(prefix);
    r.append(path.as_str());
    r
}

impl FileOpError {
    /// A human-readable description of the error.
    pub fn message(&self) -> (r: String)
        ensures
            match self {
                FileOpError::NotFound(p) => r@ == "Source file not found: "@ + p@,
                FileOpError::NotADirectory(p) => r@ == "Not a directory: "@ + p@,
                FileOpError::InvalidName(p) => r@ == "Invalid file name: "@ + p@,
                FileOpError::NameSpaceExhausted => r@ == "Could not generate unique filename"@,
            },
    {
        match self {
            FileOpError::NotFound(p) => prefixed("Source file not found: ", p),
            FileOpError::NotADirectory(p) => prefixed("Not a directory: ", p),
            FileOpError::InvalidName(p) => prefixed("Invalid file name: ", p),
            FileOpError::NameSpaceExhausted => String::from_str("Could not generate unique filename"),
        }
    }
}

/// What follows the probe of candidate `i`.
#[derive(Clone, Copy, Debug, PartialEq, Eq)]
pub enum Probe {
    /// Candidate `i` is free: take it.
    Take(u64),
    /// Candidate `i` is taken: probe the next one.
    Next(u64),
    /// The last candidate is taken: give up.
    Exhausted,
}

/// The allocation rule, one probe at a time: a free candidate is taken, a
/// taken one leads to the next, and a taken last candidate ends the search.
pub fn next_probe(i: u64, occupied: bool) -> (r: Probe)
    requires
        i <= MAX_SUFFIX,
    ensures
        !occupied ==> r == Probe::Take(i),
        occupied && i < MAX_SUFFIX ==> r == Probe::Next((i + 1) as u64),
        occupied && i == MAX_SUFFIX ==> r == Probe::Exhausted,
{
    if !occupied {
        Probe::Take(i)
    } else if i < MAX_SUFFIX {
        Probe::Next(i + 1)
    } else {
        Probe::Exhausted
    }
}

/// Some entry of `taken` is the name `c`.
pub open spec fn is_taken(taken: Seq<String>, c: Seq<char>) -> bool {
    exists|k: int| 0 <= k < taken.len() && (#[trigger] taken[k])@ == c
}

/// `i` is the first candidate index for `name` that `taken` leaves free.
pub open spec fn is_first_free(name: Seq<char>, taken: Seq<String>, i: nat) -> bool {
    &&& i <= MAX_SUFFIX
    &&& !is_taken(taken, candidate(name, i))
    &&& forall|j: nat| j < i ==> is_taken(taken, #[trigger] candidate(name, j))
}

/// Every candidate index for `name` is taken.
pub open spec fn all_taken(name: Seq<char>, taken: Seq<String>) -> bool {
    forall|j: nat| j <= MAX_SUFFIX ==> is_taken(taken, #[trigger] candidate(name, j))
}

fn contains_name(taken: &Vec<String>, c: &String) -> (r: bool)
    ensures
        r == is_taken(taken@, c@),
{
    let mut k: usize = 0;
    while k < taken.len()
        invariant
            k <= taken@.len(),
            forall|m: int| 0 <= m < k ==> (#[trigger] taken@[m])@ != c@,
        decreases taken@.len() - k,
    {
        if taken[k] == *c {
            return true;
        }
        k = k + 1;
    }
    false
}

/// The name that a file called `file_name` receives in a directory whose
/// entries are named `taken`: the first candidate that is not taken.
pub fn allocate_name(file_name: &str, taken: &Vec<String>) -> (r: Result<String, FileOpError>)
    ensures
        match r {
            Ok(n) => exists|i: nat| is_first_free(file_name@, taken@, i) && n@ == candidate(
                file_name@,
                i,
            ),
            Err(e) => e == FileOpError::NameSpaceExhausted && all_taken(file_name@, taken@),
        },
{
    let mut i: u64 = 0;
    loop
        invariant
            i <= MAX_SUFFIX,
            forall|j: nat| j < i ==> is_taken(taken@, #[trigger] candidate(file_name@, j)),
        decreases MAX_SUFFIX - i,
    {
        let c = candidate_name(file_name, i);
        match next_probe(i, contains_name(taken, &c)) {
            Probe::Take(_) => {
                assert(is_first_free(file_name@, taken@, i as nat));
                return Ok(c);
            },
            Probe::Next(j) => {
                i = j;
            },
            Probe::Exhausted => {
                return Err(FileOpError::NameSpaceExhausted);
            },
        }
    }
}

/// The path `std::path::Path::join` forms from a directory and a name.
pub uninterp spec fn joined_path(dir: Seq<char>, name: Seq<char>) -> Seq<char>;

/// `s` ends with `t`.
pub open spec fn ends_with(s: Seq<char>, t: Seq<char>) -> bool {
    t.len() <= s.len() && s.skip(s.len() - t.len()) == t
}

/// Relies on `std::path::Path::join` followed by a lossless conversion back
/// to a string: the result depends on the two arguments alone, and a
/// non-empty name without a separator is appended (`PathBuf::push` adds a
/// separator if needed, then the name), so the path ends with it.
#[verifier::external_body]
pub fn join_path(dir: &str, name: &str) -> (r: String)
    ensures
        r@ == joined_path(dir@, name@),
        name@.len() > 0 && !name@.contains('/') ==> ends_with(r@, name@),
{
    std::path::Path::new(dir).join(name).to_string_lossy().to_string()
}

/// Relies on `std::path::Path::exists`, which asks the file system; nothing
/// is promised of the answer.
#[verifier::external_body]
pub fn path_exists(path: &str) -> (r: bool) {
    std::path::Path::new(path).exists()
}

/// Relies on `std::path::Path::is_dir`, which asks the file system; nothing
/// is promised of the answer.
#[verifier::external_body]
pub fn path_is_dir(path: &str) -> (r: bool) {
    std::path::Path::new(path).is_dir()
}

/// A path in `folder` for a file called `file_name` at which nothing
/// exists: `folder/file_name` when it is free, else the first free of
/// `folder/stem_1.ext`, `folder/stem_2.ext`, ... up to [`MAX_SUFFIX`].
pub fn generate_unique_path(folder: &str, file_name: &str) -> (r: Result<String, FileOpError>)
    ensures
        match r {
            Ok(p) => exists|i: nat|
                i <= MAX_SUFFIX && p@ == joined_path(folder@, #[trigger] candidate(file_name@, i))
                    && (candidate(file_name@, i).len() > 0 && !candidate(file_name@, i).contains(
                    '/',
                ) ==> ends_with(p@, candidate(file_name@, i))),
            Err(e) => e == FileOpError::NameSpaceExhausted,
        },
{
    let mut i: u64 = 0;
    loop
        invariant
            i <= MAX_SUFFIX,
        decreases MAX_SUFFIX - i,
    {
        let c = candidate_name(file_name, i);
        let p = join_path(folder, c.as_str());
        match next_probe(i, path_exists(p.as_str())) {
            Probe::Take(_) => {
                assert(p@ == joined_path(folder@, candidate(file_name@, i as nat)));
                return Ok(p);
            },
            Probe::Next(j) => {
                i = j;
            },
            Probe::Exhausted => {
                return Err(FileOpError::NameSpaceExhausted);
            },
        }
    }
}

/// What a move of `src` into `dest_folder` may come to: a destination that
/// keeps the source's file name, possibly with a counter.
pub open spec fn is_move_target(src: Seq<char>, dest_folder: Seq<char>, p: Seq<char>) -> bool {
    exists|n: Seq<char>, i: nat|
        path_file_name(src) == Some(n) && i <= MAX_SUFFIX && p == joined_path(
            dest_folder,
            #[trigger] candidate(n, i),
        )
}

/// The checks that precede a move of `src` into `dest_folder`, given
/// whether the source exists and whether the destination is a directory:
/// a missing source is `NotFound`, a destination that is not a directory
/// is `NotADirectory`, a source without a file name is `InvalidName`;
/// otherwise the result is the file name that the destination receives.
pub fn move_precheck(src: &str, src_exists: bool, dest_folder: &str, dest_is_dir: bool) -> (r:
    Result<String, FileOpError>)
    ensures
        match r {
            Ok(n) => src_exists && dest_is_dir && path_file_name(src@) == Some(n@),
            Err(FileOpError::NotFound(s)) => !src_exists && s@ == src@,
            Err(FileOpError::NotADirectory(d)) => src_exists && !dest_is_dir && d@ == dest_folder@,
            Err(FileOpError::InvalidName(s)) => src_exists && dest_is_dir && path_file_name(
                src@,
            ).is_none() && s@ == src@,
            Err(FileOpError::NameSpaceExhausted) => false,
        },
{
    if !src_exists {
        return Err(FileOpError::NotFound(src.to_string()));
    }
    if !dest_is_dir {
        return Err(FileOpError::NotADirectory(dest_folder.to_string()));
    }
    match file_name_of(src) {
        None => Err(FileOpError::InvalidName(src.to_string())),
        Some(name) => Ok(name),
    }
}

/// Asks the file system whether `src` exists and `dest_folder` is a
/// directory, applies [`move_precheck`], and allocates the destination with
/// [`generate_unique_path`]. The caller then renames `src` to the returned
/// path; moving a file back after a move is the same operation with the
/// original folder as destination.
pub fn plan_move(src: &str, dest_folder: &str) -> (r: Result<String, FileOpError>)
    ensures
        match r {
            Ok(p) => is_move_target(src@, dest_folder@, p@),
            Err(FileOpError::NotFound(s)) => s@ == src@,
            Err(FileOpError::NotADirectory(d)) => d@ == dest_folder@,
            Err(FileOpError::InvalidName(s)) => s@ == src@ && path_file_name(src@).is_none(),
            Err(FileOpError::NameSpaceExhausted) => path_file_name(src@).is_some(),
        },
{
    let src_exists = path_exists(src);
    let dest_is_dir = path_is_dir(dest_folder);
    match move_precheck(src, src_exists, dest_folder, dest_is_dir) {
        Err(e) => Err(e),
        Ok(name) => {
            let r = generate_unique_path(dest_folder, name.as_str());
            proof {
                if r is Ok {
                    let p = r->Ok_0;
                    let i = choose|i: nat| i <= MAX_SUFFIX && p@ == joined_path(
                        dest_folder@,
                        #[trigger] candidate(name@, i),
                    );
                    assert(is_move_target(src@, dest_folder@, p@)) by {
                        assert(path_file_name(src@) == Some(name@));
                    }
                }
            }
            r
        },
    }
}

} // verus!
