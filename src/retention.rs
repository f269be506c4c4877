//! Age and size limits: which cached thumbnails and log files have
//! outlived their retention period.
use vstd::prelude::*;

verus! {

/// How long log files are kept, in days.
pub const LOG_RETENTION_DAYS: u64 = 7;

/// The size above which the current log file is emptied, in bytes.
pub const MAX_LOG_SIZE: u64 = 10 * 1024 * 1024;

/// The name of the current log file.
pub const LOG_FILE_NAME: &'static str = "picsort.log";

pub const NANOS_PER_DAY: u128 = 86_400_000_000_000;

/// A retention period of `days` days, in nanoseconds.
pub open spec fn max_age_nanos(days: u64) -> int {
    days as int * NANOS_PER_DAY as int
}

/// An entry modified at `modified` has expired at `now` when it was
/// modified no later than `now` and more than `max_age_days` days before.
/// Times are in nanoseconds since the Unix epoch.
pub open spec fn expired(now: u128, modified: u128, max_age_days: u64) -> bool {
    modified <= now && now - modified > max_age_nanos(max_age_days)
}

/// Whether an entry modified at `modified` has expired at `now`.
pub fn is_expired(now: u128, modified: u128, max_age_days: u64) -> (r: bool)
    ensures
        r == expired(now, modified, max_age_days),
{
    if modified > now {
        return false;
    }
    assert((max_age_days as int) * (NANOS_PER_DAY as int) <= (u64::MAX as int) * (
    NANOS_PER_DAY as int)) by (nonlinear_arith)
        requires
            max_age_days <= u64::MAX,
    ;
    let max_age = (max_age_days as u128) * NANOS_PER_DAY;
    now - modified > max_age
}

/// Whether a file is a log file: its extension is exactly `log`.
pub open spec fn is_log_name(name: Seq<char>) -> bool {
    crate::naming::ext_of(name) == Some("log"@)
}

/// Whether the file called `name` is a log file.
pub fn is_log_file(name: &str) -> (r: bool)
    ensures
        r == is_log_name(name@),
{
    let (_, ext) = crate::naming::split_name(name);
    match ext {
        Some(e) => {
            let log = String::from_str("log");
            e == log
        },
        None => false,
    }
}

/// Whether the log file called `name`, of `len` bytes, is the current log
/// file grown past [`MAX_LOG_SIZE`].
pub fn should_truncate_log(name: &str, len: u64) -> (r: bool)
    ensures
        r == (name@ == LOG_FILE_NAME@ && len > MAX_LOG_SIZE),
{
    let current = String::from_str(LOG_FILE_NAME);
    let given = String::from_str(name);
    given == current && len > MAX_LOG_SIZE
}

/// The positions of the entries expired at `now`, in order; an entry whose
/// modification time could not be read (`None`) is left alone.
pub open spec fn expired_positions(
    modified: Seq<Option<u128>>,
    now: u128,
    max_age_days: u64,
) -> Seq<usize>
    decreases modified.len(),
{
    if modified.len() == 0 {
        Seq::empty()
    } else {
        let before = expired_positions(modified.drop_last(), now, max_age_days);
        match modified.last() {
            Some(m) => if expired(now, m, max_age_days) {
                before.push((modified.len() - 1) as usize)
            } else {
                before
            },
            None => before,
        }
    }
}

/// Which of the entries, given by their modification times, to remove.
pub fn select_expired(modified: &Vec<Option<u128>>, now: u128, max_age_days: u64) -> (r: Vec<usize>)
    ensures
        r@ == expired_positions(modified@, now, max_age_days),
{
    let mut r: Vec<usize> = Vec::new();
    let mut i: usize = 0;
    assert(modified@.take(0) =~= Seq::<Option<u128>>::empty());
    while i < modified.len()
        invariant
            i <= modified@.len(),
            r@ == expired_positions(modified@.take(i as int), now, max_age_days),
        decreases modified@.len() - i,
    {
        proof {
            assert(modified@.take(i + 1).drop_last() =~= modified@.take(i as int));
        }
        match modified[i] {
            Some(m) => {
                if is_expired(now, m, max_age_days) {
                    r.push(i);
                }
            },
            None => {},
        }
        i = i + 1;
    }
    assert(modified@.take(i as int) =~= modified@);
    r
}

/// The entry at `i` exists, its time is known, and it has expired.
pub open spec fn is_expired_at(modified: Seq<Option<u128>>, i: int, now: u128, max_age_days: u64) -> bool {
    0 <= i < modified.len() && modified[i] is Some && expired(now, modified[i]->Some_0, max_age_days)
}

proof fn lemma_expired_positions_exact(modified: Seq<Option<u128>>, now: u128, max_age_days: u64)
    requires
        modified.len() <= usize::MAX,
    ensures
        forall|k: int|
            0 <= k < expired_positions(modified, now, max_age_days).len() ==> is_expired_at(
                modified,
                #[trigger] expired_positions(modified, now, max_age_days)[k] as int,
                now,
                max_age_days,
            ),
        forall|i: int| #[trigger]
            is_expired_at(modified, i, now, max_age_days) ==> expired_positions(
                modified,
                now,
                max_age_days,
            ).contains(i as usize),
    decreases modified.len(),
{
    if modified.len() > 0 {
        let t = modified.drop_last();
        lemma_expired_positions_exact(t, now, max_age_days);
        let b = expired_positions(t, now, max_age_days);
        let r = expired_positions(modified, now, max_age_days);
        assert forall|k: int| 0 <= k < r.len() implies is_expired_at(
            modified,
            #[trigger] r[k] as int,
            now,
            max_age_days,
        ) by {
            if k < b.len() {
                assert(r[k] == b[k]);
                assert(is_expired_at(t, b[k] as int, now, max_age_days));
                assert(modified[b[k] as int] == t[b[k] as int]);
            } else {
                assert(r[k] as int == modified.len() - 1);
            }
        }
        assert forall|i: int| #[trigger] is_expired_at(modified, i, now, max_age_days) implies r.contains(
            i as usize,
        ) by {
            if i < modified.len() - 1 {
                assert(t[i] == modified[i]);
                assert(is_expired_at(t, i, now, max_age_days));
                assert(b.contains(i as usize));
                let k = choose|k: int| 0 <= k < b.len() && b[k] == i as usize;
                assert(r[k] == b[k]);
            } else {
                assert(r[r.len() - 1] == i as usize);
            }
        }
    }
}

/// Cleanup removes exactly the entries that are older than the threshold:
/// every selected entry has expired, every expired entry is selected, and
/// an entry that has not expired, or whose time is unknown, is left alone.
/// An empty directory loses nothing.
pub proof fn lemma_cleanup_removes_only_expired(
    modified: Seq<Option<u128>>,
    now: u128,
    max_age_days: u64,
)
    requires
        modified.len() <= usize::MAX,
    ensures
        forall|i: int|
            0 <= i < modified.len() ==> (expired_positions(modified, now, max_age_days).contains(
                i as usize,
            ) <==> #[trigger] is_expired_at(modified, i, now, max_age_days)),
        modified.len() == 0 ==> expired_positions(modified, now, max_age_days).len() == 0,
{
    lemma_expired_positions_exact(modified, now, max_age_days);
    let r = expired_positions(modified, now, max_age_days);
    assert forall|i: int| 0 <= i < modified.len() implies (r.contains(i as usize)
        <==> #[trigger] is_expired_at(modified, i, now, max_age_days)) by {
        if r.contains(i as usize) {
            let k = choose|k: int| 0 <= k < r.len() && r[k] == i as usize;
            assert(is_expired_at(modified, r[k] as int, now, max_age_days));
        }
    }
}

/// An entry older than one that cleanup removes is removed too.
pub proof fn lemma_expiry_is_monotone(now: u128, older: u128, newer: u128, max_age_days: u64)
    requires
        older <= newer,
        expired(now, newer, max_age_days),
    ensures
        expired(now, older, max_age_days),
{
}

} // verus!
