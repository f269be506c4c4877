//! The change watcher's decisions: which raw notifications count, the
//! debounce buffer that collapses bursts per path, and the session state
//! that at most one background loop owns.
use vstd::prelude::*;
use crate::media::{file_name_of, name_has_ext, path_ext_is, ExtKind};

verus! {

/// How long a path must stay quiet before its change is reported, in
/// milliseconds.
pub const DEBOUNCE_MS: u64 = 500;

/// How long the background loop waits for a notification before it looks
/// at the buffer again, in milliseconds.
pub const POLL_INTERVAL_MS: u64 = 50;

/// The kind of a change to a file.
#[derive(Clone, Copy, Debug, PartialEq, Eq)]
pub enum ChangeKind {
    Created,
    Modified,
    Removed,
}

/// A settled change, reported to the consumer.
#[derive(Clone, Debug, PartialEq, Eq)]
pub enum FsChangeEvent {
    Created(String),
    Modified(String),
    Removed(String),
}

impl FsChangeEvent {
    /// The path the event is about.
    pub fn path(&self) -> (r: &String)
        ensures
            r@ == event_path(*self),
    {
        match self {
            FsChangeEvent::Created(p) => p,
            FsChangeEvent::Modified(p) => p,
            FsChangeEvent::Removed(p) => p,
        }
    }
}

pub open spec fn event_path(e: FsChangeEvent) -> Seq<char> {
    match e {
        FsChangeEvent::Created(p) => p@,
        FsChangeEvent::Modified(p) => p@,
        FsChangeEvent::Removed(p) => p@,
    }
}

/// The latest raw change seen for a path, and when, in milliseconds of a
/// monotonic clock.
#[derive(Debug)]
pub struct PendingChange {
    pub path: String,
    pub kind: ChangeKind,
    pub seen_at: u64,
}

pub open spec fn event_of(c: PendingChange) -> FsChangeEvent {
    match c.kind {
        ChangeKind::Created => FsChangeEvent::Created(c.path),
        ChangeKind::Modified => FsChangeEvent::Modified(c.path),
        ChangeKind::Removed => FsChangeEvent::Removed(c.path),
    }
}

/// A change is settled at `now` once `window` milliseconds have passed
/// since it was seen (no time has passed when `now` is earlier).
pub open spec fn is_due(c: PendingChange, now: u64, window: u64) -> bool {
    (if now >= c.seen_at {
        now - c.seen_at
    } else {
        0
    }) >= window
}

/// No two pending changes are about the same path.
pub open spec fn paths_unique(s: Seq<PendingChange>) -> bool {
    forall|i: int, j: int|
        0 <= i < s.len() && 0 <= j < s.len() && i != j ==> (#[trigger] s[i]).path@ != (
        #[trigger] s[j]).path@
}

/// The position of the change pending for `p`, or -1.
pub open spec fn find_path(s: Seq<PendingChange>, p: Seq<char>) -> int
    decreases s.len(),
{
    if s.len() == 0 {
        -1
    } else if s.last().path@ == p {
        s.len() - 1
    } else {
        find_path(s.drop_last(), p)
    }
}

/// The buffer after a raw change of `kind` to `path` at `now`: the entry of
/// that path is overwritten, or a new one is appended.
pub open spec fn recorded(s: Seq<PendingChange>, path: String, kind: ChangeKind, now: u64) -> Seq<
    PendingChange,
> {
    let c = PendingChange { path, kind, seen_at: now };
    let i = find_path(s, path@);
    if i >= 0 {
        s.update(i, c)
    } else {
        s.push(c)
    }
}

/// The events of the settled changes, in buffer order.
pub open spec fn due_events(s: Seq<PendingChange>, now: u64, window: u64) -> Seq<FsChangeEvent>
    decreases s.len(),
{
    if s.len() == 0 {
        Seq::empty()
    } else if is_due(s.last(), now, window) {
        due_events(s.drop_last(), now, window).push(event_of(s.last()))
    } else {
        due_events(s.drop_last(), now, window)
    }
}

/// The changes that are not settled yet, in buffer order.
pub open spec fn still_pending(s: Seq<PendingChange>, now: u64, window: u64) -> Seq<PendingChange>
    decreases s.len(),
{
    if s.len() == 0 {
        Seq::empty()
    } else if is_due(s.last(), now, window) {
        still_pending(s.drop_last(), now, window)
    } else {
        still_pending(s.drop_last(), now, window).push(s.last())
    }
}

/// Whether a raw notification about `path` concerns the watcher: its file
/// name has an image or TIFF extension.
pub fn is_watched_path(path: &str) -> (r: bool)
    ensures
        r == path_ext_is(path@, ExtKind::Watched),
{
    match file_name_of(path) {
        Some(n) => name_has_ext(n.as_str(), ExtKind::Watched),
        None => false,
    }
}

/// The buffer after a notification of `kind` (if it has one) about `paths`:
/// each watched path, in order, is recorded.
pub open spec fn collected(
    s: Seq<PendingChange>,
    kind: Option<ChangeKind>,
    paths: Seq<Option<String>>,
    now: u64,
) -> Seq<PendingChange>
    decreases paths.len(),
{
    if paths.len() == 0 {
        s
    } else {
        let before = collected(s, kind, paths.drop_last(), now);
        match (kind, paths.last()) {
            (Some(k), Some(p)) => if path_ext_is(p@, ExtKind::Watched) {
                recorded(before, p, k, now)
            } else {
                before
            },
            _ => before,
        }
    }
}

proof fn lemma_find_path(s: Seq<PendingChange>, p: Seq<char>)
    ensures
        -1 <= find_path(s, p) < s.len(),
        find_path(s, p) >= 0 ==> s[find_path(s, p)].path@ == p,
        find_path(s, p) < 0 ==> forall|k: int| 0 <= k < s.len() ==> (#[trigger] s[k]).path@ != p,
    decreases s.len(),
{
    if s.len() > 0 && s.last().path@ != p {
        lemma_find_path(s.drop_last(), p);
        if find_path(s, p) < 0 {
            assert forall|k: int| 0 <= k < s.len() implies (#[trigger] s[k]).path@ != p by {
                if k < s.len() - 1 {
                    assert(s[k] == s.drop_last()[k]);
                }
            }
        }
    }
}

proof fn lemma_recorded_unique(s: Seq<PendingChange>, path: String, kind: ChangeKind, now: u64)
    requires
        paths_unique(s),
    ensures
        paths_unique(recorded(s, path, kind, now)),
{
    lemma_find_path(s, path@);
}

proof fn lemma_step_prefix<T>(s: Seq<T>, i: int)
    requires
        0 <= i < s.len(),
    ensures
        s.take(i + 1).drop_last() == s.take(i),
        s.take(i + 1).last() == s[i],
{
    assert(s.take(i + 1).drop_last() =~= s.take(i));
}

/// Raw changes waiting for their path to settle.
pub struct DebounceBuffer {
    pending: Vec<PendingChange>,
}

impl DebounceBuffer {
    /// The pending changes, in the order their paths were first seen.
    pub closed spec fn view(&self) -> Seq<PendingChange> {
        self.pending@
    }

    /// Each path has at most one pending change.
    pub closed spec fn wf(&self) -> bool {
        paths_unique(self.pending@)
    }

    /// An empty buffer.
    pub fn new() -> (r: DebounceBuffer)
        ensures
            r.wf(),
            r.view().len() == 0,
    {
        DebounceBuffer { pending: Vec::new() }
    }

    /// The number of pending changes.
    pub fn len(&self) -> (r: usize)
        ensures
            r == self.view().len(),
    {
        self.pending.len()
    }

    /// Records a raw change of `kind` to `path` seen at `now`; a change
    /// already pending for the path is replaced, kind and time alike.
    pub fn record(&mut self, path: String, kind: ChangeKind, now: u64)
        requires
            old(self).wf(),
        ensures
            final(self).wf(),
            final(self).view() == recorded(old(self).view(), path, kind, now),
    {
        proof {
            lemma_find_path(self.pending@, path@);
            lemma_recorded_unique(self.pending@, path, kind, now);
        }
        let ghost s = self.pending@;
        let mut k: usize = self.pending.len();
        assert(s.take(k as int) =~= s);
        while k > 0
            invariant
                k <= s.len(),
                self.pending@ == s,
                s == old(self).pending@,
                paths_unique(recorded(s, path, kind, now)),
                find_path(s, path@) == find_path(s.take(k as int), path@),
            decreases k,
        {
            proof {
                assert(s.take(k as int).drop_last() =~= s.take(k - 1));
            }
            if self.pending[k - 1].path == path {
                assert(s.take(k as int).last() == s[k - 1]);
                let c = PendingChange { path, kind, seen_at: now };
                self.pending.remove(k - 1);
                self.pending.insert(k - 1, c);
                assert(self.pending@ =~= s.update(k - 1, c));
                return;
            }
            k = k - 1;
        }
        assert(s.take(0) =~= Seq::<PendingChange>::empty());
        self.pending.push(PendingChange { path, kind, seen_at: now });
    }

    /// Removes the changes settled at `now` and returns their events, in
    /// buffer order.
    pub fn take_due(&mut self, now: u64, window: u64) -> (r: Vec<FsChangeEvent>)
        requires
            old(self).wf(),
        ensures
            final(self).wf(),
            r@ == due_events(old(self).view(), now, window),
            final(self).view() == still_pending(old(self).view(), now, window),
    {
        let ghost all = self.pending@;
        let mut rest: Vec<PendingChange> = Vec::new();
        std::mem::swap(&mut rest, &mut self.pending);
        let mut events: Vec<FsChangeEvent> = Vec::new();
        let mut kept: Vec<PendingChange> = Vec::new();
        let ghost mut i: int = 0;
        assert(all.take(0) =~= Seq::<PendingChange>::empty());
        while rest.len() > 0
            invariant
                0 <= i <= all.len(),
                rest@ == all.skip(i),
                events@ == due_events(all.take(i), now, window),
                kept@ == still_pending(all.take(i), now, window),
            decreases rest@.len(),
        {
            let c = rest.remove(0);
            proof {
                lemma_step_prefix(all, i);
                assert(all.skip(i).remove(0) =~= all.skip(i + 1));
                i = i + 1;
            }
            let age = if now >= c.seen_at {
                now - c.seen_at
            } else {
                0
            };
            if age >= window {
                let e = match c.kind {
                    ChangeKind::Created => FsChangeEvent::Created(c.path),
                    ChangeKind::Modified => FsChangeEvent::Modified(c.path),
                    ChangeKind::Removed => FsChangeEvent::Removed(c.path),
                };
                events.push(e);
            } else {
                kept.push(c);
            }
        }
        assert(all.take(i) =~= all);
        self.pending = kept;
        proof {
            lemma_still_pending_unique(all, now, window);
        }
        events
    }

    /// Records, in order, each watched path of a notification of `kind`;
    /// a notification with no kind of interest changes nothing.
    pub fn collect(&mut self, kind: Option<ChangeKind>, paths: Vec<Option<String>>, now: u64)
        requires
            old(self).wf(),
        ensures
            final(self).wf(),
            final(self).view() == collected(old(self).view(), kind, paths@, now),
    {
        let ghost s0 = self.view();
        let ghost all = paths@;
        let mut rest = paths;
        let ghost mut i: int = 0;
        assert(all.take(0) =~= Seq::<Option<String>>::empty());
        while rest.len() > 0
            invariant
                0 <= i <= all.len(),
                rest@ == all.skip(i),
                self.wf(),
                self.view() == collected(s0, kind, all.take(i), now),
            decreases rest@.len(),
        {
            let p = rest.remove(0);
            proof {
                lemma_step_prefix(all, i);
                assert(all.skip(i).remove(0) =~= all.skip(i + 1));
                i = i + 1;
            }
            match (kind, p) {
                (Some(k), Some(path)) => {
                    if is_watched_path(path.as_str()) {
                        self.record(path, k, now);
                    }
                },
                _ => {},
            }
        }
        assert(all.take(i) =~= all);
    }
}

#[verifier::external_type_specification]
#[verifier::external_body]
pub struct ExEvent(notify::Event);

#[verifier::external_type_specification]
#[verifier::external_body]
#[verifier::reject_recursive_types(T)]
pub struct ExSender<T>(std::sync::mpsc::Sender<T>);

/// The kind of change that a raw notification reports, if it is one of
/// interest.
pub uninterp spec fn event_kind_of(e: notify::Event) -> Option<ChangeKind>;

/// The paths that a raw notification names, as strings where they are
/// valid Unicode.
pub uninterp spec fn event_paths_of(e: notify::Event) -> Seq<Option<String>>;

/// Relies on the `kind` field of `notify::Event`: creations, modifications
/// and removals are told apart, and every other kind is of no interest.
#[verifier::external_body]
fn raw_change_kind(e: &notify::Event) -> (r: Option<ChangeKind>)
    ensures
        r == event_kind_of(*e),
{
    match e.kind {
        notify::EventKind::Create(_) => Some(ChangeKind::Created),
        notify::EventKind::Modify(_) => Some(ChangeKind::Modified),
        notify::EventKind::Remove(_) => Some(ChangeKind::Removed),
        _ => None,
    }
}

/// Relies on the `paths` field of `notify::Event`: each path, in order, as
/// a string, or `None` where it is not valid Unicode.
#[verifier::external_body]
fn raw_paths(e: &notify::Event) -> (r: Vec<Option<String>>)
    ensures
        r@ == event_paths_of(*e),
{
    e.paths.iter().map(|p| p.to_str().map(String::from)).collect()
}

impl DebounceBuffer {
    /// Records a raw notification received at `now`: its kind and its
    /// paths, in order, go to [`DebounceBuffer::collect`].
    pub fn collect_event(&mut self, event: &notify::Event, now: u64)
        requires
            old(self).wf(),
        ensures
            final(self).wf(),
            final(self).view() == collected(
                old(self).view(),
                event_kind_of(*event),
                event_paths_of(*event),
                now,
            ),
    {
        let kind = raw_change_kind(event);
        let paths = raw_paths(event);
        self.collect(kind, paths, now);
    }
}

/// The session of a watcher: the stop signal of the running background
/// loop, and the directory it watches. Both are present while watching and
/// absent when idle.
pub struct WatcherState {
    pub sender: Option<std::sync::mpsc::Sender<()>>,
    pub watching_path: Option<String>,
}

impl Default for WatcherState {
    fn default() -> (r: WatcherState)
        ensures
            r.sender.is_none(),
            r.watching_path.is_none(),
    {
        WatcherState { sender: None, watching_path: None }
    }
}

impl WatcherState {
    /// Whether a session is running.
    pub fn is_watching(&self) -> (r: bool)
        ensures
            r == self.sender.is_some(),
    {
        self.sender.is_some()
    }

    /// Starts a session on `path` whose loop stops on `sender`; returns the
    /// stop signal of the session it replaces, which the caller fires.
    pub fn begin(&mut self, sender: std::sync::mpsc::Sender<()>, path: String) -> (r: Option<
        std::sync::mpsc::Sender<()>,
    >)
        ensures
            r == old(self).sender,
            final(self).sender == Some(sender),
            final(self).watching_path == Some(path),
    {
        let previous = self.sender.take();
        self.sender = Some(sender);
        self.watching_path = Some(path);
        previous
    }

    /// Ends the session, if any; returns its stop signal, which the caller
    /// fires.
    pub fn end(&mut self) -> (r: Option<std::sync::mpsc::Sender<()>>)
        ensures
            r == old(self).sender,
            final(self).sender.is_none(),
            final(self).watching_path.is_none(),
    {
        let previous = self.sender.take();
        self.watching_path = None;
        previous
    }
}

proof fn lemma_still_pending_unique(s: Seq<PendingChange>, now: u64, window: u64)
    requires
        paths_unique(s),
    ensures
        paths_unique(still_pending(s, now, window)),
        forall|c: PendingChange| #[trigger]
            still_pending(s, now, window).contains(c) ==> s.contains(c),
    decreases s.len(),
{
    if s.len() > 0 {
        let t = s.drop_last();
        assert forall|i: int, j: int|
            0 <= i < t.len() && 0 <= j < t.len() && i != j implies (#[trigger] t[i]).path@ != (
            #[trigger] t[j]).path@ by {
            assert(t[i] == s[i] && t[j] == s[j]);
        }
        lemma_still_pending_unique(t, now, window);
        let r = still_pending(t, now, window);
        assert forall|c: PendingChange| #[trigger] r.contains(c) implies s.contains(c) by {
            let k = choose|k: int| 0 <= k < r.len() && r[k] == c;
            let m = choose|m: int| 0 <= m < t.len() && t[m] == c;
            assert(s[m] == c);
        }
        if !is_due(s.last(), now, window) {
            let r2 = r.push(s.last());
            assert forall|i: int, j: int|
                0 <= i < r2.len() && 0 <= j < r2.len() && i != j implies (#[trigger] r2[i]).path@
                != (#[trigger] r2[j]).path@ by {
                if i < r.len() && j < r.len() {
                    assert(r2[i] == r[i] && r2[j] == r[j]);
                } else if i < r.len() {
                    assert(r.contains(r[i]));
                    let m = choose|m: int| 0 <= m < t.len() && t[m] == r[i];
                    assert(s[m] == r[i]);
                    assert(s[s.len() - 1] == s.last());
                } else {
                    assert(r.contains(r[j]));
                    let m = choose|m: int| 0 <= m < t.len() && t[m] == r[j];
                    assert(s[m] == r[j]);
                    assert(s[s.len() - 1] == s.last());
                }
            }
            assert forall|c: PendingChange| #[trigger] r2.contains(c) implies s.contains(c) by {
                let k = choose|k: int| 0 <= k < r2.len() && r2[k] == c;
                if k < r.len() {
                    assert(r.contains(c));
                    let m = choose|m: int| 0 <= m < t.len() && t[m] == c;
                    assert(s[m] == c);
                } else {
                    assert(s[s.len() - 1] == c);
                }
            }
        }
    }
}


/// The buffer after raw changes of `kind` to `path` at each of `times`, in
/// order.
pub open spec fn recorded_all(
    s: Seq<PendingChange>,
    path: String,
    kind: ChangeKind,
    times: Seq<u64>,
) -> Seq<PendingChange>
    decreases times.len(),
{
    if times.len() == 0 {
        s
    } else {
        recorded(recorded_all(s, path, kind, times.drop_last()), path, kind, times.last())
    }
}

/// The events of `ev` about the path `p`, in order.
pub open spec fn events_for(ev: Seq<FsChangeEvent>, p: Seq<char>) -> Seq<FsChangeEvent>
    decreases ev.len(),
{
    if ev.len() == 0 {
        Seq::empty()
    } else if event_path(ev.last()) == p {
        events_for(ev.drop_last(), p).push(ev.last())
    } else {
        events_for(ev.drop_last(), p)
    }
}

proof fn lemma_recorded_all_unique(s: Seq<PendingChange>, path: String, kind: ChangeKind, times: Seq<u64>)
    requires
        paths_unique(s),
    ensures
        paths_unique(recorded_all(s, path, kind, times)),
    decreases times.len(),
{
    if times.len() > 0 {
        lemma_recorded_all_unique(s, path, kind, times.drop_last());
        lemma_recorded_unique(recorded_all(s, path, kind, times.drop_last()), path, kind, times.last());
    }
}

proof fn lemma_recorded_holds(s: Seq<PendingChange>, path: String, kind: ChangeKind, now: u64)
    ensures
        ({
            let r = recorded(s, path, kind, now);
            exists|i: int|
                0 <= i < r.len() && #[trigger] r[i] == (PendingChange { path, kind, seen_at: now })
        }),
{
    lemma_find_path(s, path@);
    let r = recorded(s, path, kind, now);
    let c = PendingChange { path, kind, seen_at: now };
    if find_path(s, path@) >= 0 {
        assert(r[find_path(s, path@)] == c);
    } else {
        assert(r[s.len() as int] == c);
    }
}

proof fn lemma_events_without_path(b: Seq<PendingChange>, p: Seq<char>, now: u64, window: u64)
    requires
        forall|k: int| 0 <= k < b.len() ==> (#[trigger] b[k]).path@ != p,
    ensures
        events_for(due_events(b, now, window), p) == Seq::<FsChangeEvent>::empty(),
    decreases b.len(),
{
    if b.len() > 0 {
        let t = b.drop_last();
        assert forall|k: int| 0 <= k < t.len() implies (#[trigger] t[k]).path@ != p by {
            assert(t[k] == b[k]);
        }
        lemma_events_without_path(t, p, now, window);
        assert(b[b.len() - 1] == b.last());
        if is_due(b.last(), now, window) {
            let d = due_events(t, now, window).push(event_of(b.last()));
            assert(d.drop_last() =~= due_events(t, now, window));
        }
    }
}

proof fn lemma_events_with_path(b: Seq<PendingChange>, i: int, now: u64, window: u64)
    requires
        paths_unique(b),
        0 <= i < b.len(),
    ensures
        events_for(due_events(b, now, window), b[i].path@) == if is_due(b[i], now, window) {
            seq![event_of(b[i])]
        } else {
            Seq::<FsChangeEvent>::empty()
        },
    decreases b.len(),
{
    let p = b[i].path@;
    let t = b.drop_last();
    assert forall|x: int, y: int|
        0 <= x < t.len() && 0 <= y < t.len() && x != y implies (#[trigger] t[x]).path@ != (
        #[trigger] t[y]).path@ by {
        assert(t[x] == b[x] && t[y] == b[y]);
    }
    assert(b[b.len() - 1] == b.last());
    if i == b.len() - 1 {
        assert forall|k: int| 0 <= k < t.len() implies (#[trigger] t[k]).path@ != p by {
            assert(t[k] == b[k]);
        }
        lemma_events_without_path(t, p, now, window);
        if is_due(b.last(), now, window) {
            let d = due_events(t, now, window).push(event_of(b.last()));
            assert(d.drop_last() =~= due_events(t, now, window));
            assert(events_for(d, p) =~= Seq::<FsChangeEvent>::empty().push(event_of(b[i])));
        }
    } else {
        assert(t[i] == b[i]);
        lemma_events_with_path(t, i, now, window);
        if is_due(b.last(), now, window) {
            let d = due_events(t, now, window).push(event_of(b.last()));
            assert(d.drop_last() =~= due_events(t, now, window));
        }
    }
}

/// A burst of raw modifications of one path, however many, collapses into
/// one pending change: once the window has passed since the last of them,
/// exactly one event is reported for the path, and it is `Modified` with
/// that path; before then, none is.
pub proof fn lemma_burst_yields_one_event(
    s: Seq<PendingChange>,
    path: String,
    times: Seq<u64>,
    now: u64,
    window: u64,
)
    requires
        paths_unique(s),
        times.len() > 0,
    ensures
        ({
            let b = recorded_all(s, path, ChangeKind::Modified, times);
            let last = PendingChange { path, kind: ChangeKind::Modified, seen_at: times.last() };
            &&& paths_unique(b)
            &&& is_due(last, now, window) ==> events_for(due_events(b, now, window), path@)
                == seq![FsChangeEvent::Modified(path)]
            &&& !is_due(last, now, window) ==> events_for(due_events(b, now, window), path@)
                == Seq::<FsChangeEvent>::empty()
        }),
{
    let before = recorded_all(s, path, ChangeKind::Modified, times.drop_last());
    lemma_recorded_all_unique(s, path, ChangeKind::Modified, times);
    lemma_recorded_holds(before, path, ChangeKind::Modified, times.last());
    let b = recorded_all(s, path, ChangeKind::Modified, times);
    let last = PendingChange { path, kind: ChangeKind::Modified, seen_at: times.last() };
    let i = choose|i: int| 0 <= i < b.len() && #[trigger] b[i] == last;
    lemma_events_with_path(b, i, now, window);
}

} // verus!
