//! Directory listings: which entries are media files, and their natural
//! order by name.
use vstd::prelude::*;
use core::cmp::Ordering;
use crate::media::{is_media_ext, is_watched_ext, lower_of, name_ext_is, name_has_ext, ExtKind};

verus! {

/// A media file of a listing.
#[derive(Debug)]
pub struct ImageInfo {
    pub path: String,
    pub name: String,
    /// Size in bytes, when its metadata could be read.
    pub size: Option<u64>,
    /// Last modification, in seconds since the Unix epoch, when known.
    pub modified_at: Option<i64>,
}

/// What a directory read reports of one entry.
#[derive(Debug)]
pub struct EntryInfo {
    pub path: String,
    pub name: String,
    pub is_symlink: bool,
    pub size: Option<u64>,
    pub modified_at: Option<i64>,
}

/// The name starts with the hidden-file marker `.`.
pub open spec fn is_hidden(name: Seq<char>) -> bool {
    name.len() > 0 && name[0] == '.'
}

/// A listing shows an entry when it is not hidden, not a symbolic link, and
/// has a supported media extension.
pub open spec fn is_listed(e: EntryInfo) -> bool {
    !is_hidden(e.name@) && !e.is_symlink && name_ext_is(e.name@, ExtKind::Media)
}

pub open spec fn info_of(e: EntryInfo) -> ImageInfo {
    ImageInfo { path: e.path, name: e.name, size: e.size, modified_at: e.modified_at }
}

/// The entries that a listing shows, in the order given.
pub open spec fn listed(s: Seq<EntryInfo>) -> Seq<ImageInfo>
    decreases s.len(),
{
    if s.len() == 0 {
        Seq::empty()
    } else if is_listed(s[0]) {
        seq![info_of(s[0])] + listed(s.drop_first())
    } else {
        listed(s.drop_first())
    }
}

/// The natural order of two names, as `natord::compare` gives it.
pub uninterp spec fn natural_order(a: Seq<char>, b: Seq<char>) -> Ordering;

pub open spec fn reversed(o: Ordering) -> Ordering {
    match o {
        Ordering::Less => Ordering::Greater,
        Ordering::Equal => Ordering::Equal,
        Ordering::Greater => Ordering::Less,
    }
}

/// Relies on `natord::compare`: its result depends on the two strings
/// alone, and it treats both sides alike, so that swapping the arguments
/// reverses the result.
#[verifier::external_body]
fn natural_cmp(a: &str, b: &str) -> (r: Ordering)
    ensures
        r == natural_order(a@, b@),
        natural_order(b@, a@) == reversed(r),
{
    natord::compare(a, b)
}

/// The name at `k` does not come after the one at `k + 1`.
pub open spec fn in_order_at(s: Seq<ImageInfo>, k: int) -> bool {
    natural_order(s[k].name@, s[k + 1].name@) != Ordering::Greater
}

/// No name of the sequence comes after its successor in natural order.
pub open spec fn naturally_sorted(s: Seq<ImageInfo>) -> bool {
    forall|k: int| 0 <= k < s.len() - 1 ==> #[trigger] in_order_at(s, k)
}

fn is_hidden_name(name: &str) -> (r: bool)
    ensures
        r == is_hidden(name@),
{
    name.unicode_len() > 0 && name.get_char(0) == '.'
}

/// Whether a listing shows the entry.
pub fn shows_entry(e: &EntryInfo) -> (r: bool)
    ensures
        r == is_listed(*e),
{
    !is_hidden_name(e.name.as_str()) && !e.is_symlink && name_has_ext(
        e.name.as_str(),
        ExtKind::Media,
    )
}

proof fn lemma_insert_keeps_sorted(s: Seq<ImageInfo>, j: int, x: ImageInfo)
    requires
        0 <= j <= s.len(),
        naturally_sorted(s),
        j > 0 ==> natural_order(s[j - 1].name@, x.name@) == Ordering::Less,
        j < s.len() ==> natural_order(x.name@, s[j].name@) != Ordering::Greater,
    ensures
        naturally_sorted(s.insert(j, x)),
{
    let t = s.insert(j, x);
    assert forall|k: int| 0 <= k < t.len() - 1 implies #[trigger] in_order_at(t, k) by {
        if k < j - 1 {
            assert(in_order_at(s, k));
            assert(t[k] == s[k]);
            assert(t[k + 1] == s[k + 1]);
        } else if k == j - 1 {
            assert(t[k] == s[k]);
            assert(t[k + 1] == x);
        } else if k == j {
            assert(t[k] == x);
            assert(t[k + 1] == s[k]);
        } else {
            assert(in_order_at(s, k - 1));
            assert(t[k] == s[k - 1]);
            assert(t[k + 1] == s[k]);
        }
    }
}

/// Puts `x` into the naturally sorted `r`, before the first element that
/// does not come before it.
fn insert_sorted(r: &mut Vec<ImageInfo>, x: ImageInfo)
    requires
        naturally_sorted(old(r)@),
    ensures
        naturally_sorted(final(r)@),
        final(r)@.to_multiset() == old(r)@.to_multiset().insert(x),
{
    let mut j: usize = 0;
    let mut found = false;
    while !found && j < r.len()
        invariant
            j <= r@.len(),
            r@ == old(r)@,
            j > 0 ==> natural_order(r@[j - 1].name@, x.name@) == Ordering::Less,
            found ==> j < r@.len() && natural_order(x.name@, r@[j as int].name@)
                != Ordering::Greater,
        decreases r@.len() - j + (if found { 0int } else { 1int }),
    {
        match natural_cmp(x.name.as_str(), r[j].name.as_str()) {
            Ordering::Greater => {
                j = j + 1;
            },
            _ => {
                found = true;
            },
        }
    }
    let ghost old_r = r@;
    r.insert(j, x);
    proof {
        vstd::seq_lib::to_multiset_insert(old_r, j as int, x);
    }
    proof {
        lemma_insert_keeps_sorted(old_r, j as int, x);
    }
}

/// The media files among `entries`, naturally sorted by name.
pub fn build_listing(entries: Vec<EntryInfo>) -> (r: Vec<ImageInfo>)
    ensures
        r@.to_multiset() == listed(entries@).to_multiset(),
        naturally_sorted(r@),
{
    let ghost all = entries@;
    let mut rest = entries;
    let mut r: Vec<ImageInfo> = Vec::new();
    while rest.len() > 0
        invariant
            rest@ == all.take(rest@.len() as int),
            rest@.len() <= all.len(),
            naturally_sorted(r@),
            r@.to_multiset() == listed(all.skip(rest@.len() as int)).to_multiset(),
        decreases rest@.len(),
    {
        let ghost n = rest@.len() as int;
        let e = rest.pop().unwrap();
        proof {
            assert(e == all[n - 1]);
            assert(all.skip(n - 1).drop_first() =~= all.skip(n));
            assert(all.skip(n - 1)[0] == e);
            assert(rest@ =~= all.take(n - 1));
        }
        if shows_entry(&e) {
            let info = ImageInfo {
                path: e.path,
                name: e.name,
                size: e.size,
                modified_at: e.modified_at,
            };
            proof {
                let l = listed(all.skip(n));
                assert(seq![info] + l =~= l.insert(0, info));
                vstd::seq_lib::to_multiset_insert(l, 0, info);
            }
            insert_sorted(&mut r, info);
        }
    }
    assert(all.skip(0) =~= all);
    r
}

/// A directory whose entries are all visible media files, none of them a
/// symbolic link, is listed whole: the listing holds exactly its entries.
pub proof fn lemma_media_only_listed_whole(entries: Seq<EntryInfo>)
    requires
        forall|k: int| 0 <= k < entries.len() ==> is_listed(#[trigger] entries[k]),
    ensures
        listed(entries) == entries.map_values(|e: EntryInfo| info_of(e)),
    decreases entries.len(),
{
    if entries.len() > 0 {
        let t = entries.drop_first();
        assert forall|k: int| 0 <= k < t.len() implies is_listed(#[trigger] t[k]) by {
            assert(t[k] == entries[k + 1]);
        }
        lemma_media_only_listed_whole(t);
        assert(is_listed(entries[0]));
        assert(listed(entries) =~= entries.map_values(|e: EntryInfo| info_of(e)));
    }
}

/// Every file of a listing is an entry of the directory, unchanged, that is
/// neither hidden nor a symbolic link and has a supported extension.
pub proof fn lemma_listing_comes_from_visible_media(entries: Seq<EntryInfo>)
    ensures
        forall|x: ImageInfo| #[trigger]
            listed(entries).contains(x) ==> exists|k: int|
                0 <= k < entries.len() && info_of(#[trigger] entries[k]) == x && !is_hidden(
                    entries[k].name@,
                ) && !entries[k].is_symlink && name_ext_is(entries[k].name@, ExtKind::Media),
    decreases entries.len(),
{
    if entries.len() > 0 {
        let t = entries.drop_first();
        lemma_listing_comes_from_visible_media(t);
        assert forall|x: ImageInfo| #[trigger] listed(entries).contains(x) implies exists|k: int|
            0 <= k < entries.len() && info_of(#[trigger] entries[k]) == x && !is_hidden(
                entries[k].name@,
            ) && !entries[k].is_symlink && name_ext_is(entries[k].name@, ExtKind::Media) by {
            let l = listed(entries);
            let j = choose|j: int| 0 <= j < l.len() && l[j] == x;
            if is_listed(entries[0]) && j == 0 {
                assert(info_of(entries[0]) == x);
            } else {
                let lt = listed(t);
                if is_listed(entries[0]) {
                    assert(lt[j - 1] == x);
                } else {
                    assert(lt[j] == x);
                }
                assert(lt.contains(x));
                let m = choose|m: int|
                    0 <= m < t.len() && info_of(#[trigger] t[m]) == x && !is_hidden(t[m].name@)
                        && !t[m].is_symlink && name_ext_is(t[m].name@, ExtKind::Media);
                assert(entries[m + 1] == t[m]);
            }
        }
    }
}

/// Whether an extension is supported depends on its lower-case form alone:
/// two extensions that differ only in case are both supported or both not.
pub proof fn lemma_media_ext_ignores_case(a: Seq<char>, b: Seq<char>)
    requires
        lower_of(a) == lower_of(b),
    ensures
        is_media_ext(a) == is_media_ext(b),
        is_watched_ext(a) == is_watched_ext(b),
{
}

} // verus!
