use picsort::watcher::{
    is_watched_path, ChangeKind, DebounceBuffer, FsChangeEvent, WatcherState, DEBOUNCE_MS,
    POLL_INTERVAL_MS,
};
use std::sync::mpsc::channel;

#[test]
fn test_watcher_state_default() {
    let state = WatcherState::default();
    assert!(state.sender.is_none());
    assert!(state.watching_path.is_none());
}

#[test]
fn test_debounce_constant() {
    assert_eq!(DEBOUNCE_MS, 500);
}

#[test]
fn poll_interval_is_shorter_than_window() {
    assert!(POLL_INTERVAL_MS < DEBOUNCE_MS);
}

#[test]
fn burst_of_modifications_yields_one_event() {
    let mut b = DebounceBuffer::new();
    for t in [0u64, 100, 200, 300, 450] {
        b.record("/w/a.jpg".to_string(), ChangeKind::Modified, t);
        assert!(b.take_due(t, DEBOUNCE_MS).is_empty());
    }
    assert_eq!(b.len(), 1);
    assert!(b.take_due(900, DEBOUNCE_MS).is_empty());
    let events = b.take_due(950, DEBOUNCE_MS);
    assert_eq!(events, vec![FsChangeEvent::Modified("/w/a.jpg".to_string())]);
    assert_eq!(events[0].path(), "/w/a.jpg");
    assert_eq!(b.len(), 0);
    assert!(b.take_due(5000, DEBOUNCE_MS).is_empty());
}

#[test]
fn latest_kind_wins() {
    let mut b = DebounceBuffer::new();
    b.record("/w/a.png".to_string(), ChangeKind::Created, 0);
    b.record("/w/a.png".to_string(), ChangeKind::Modified, 10);
    b.record("/w/a.png".to_string(), ChangeKind::Removed, 20);
    assert_eq!(b.take_due(520, DEBOUNCE_MS), vec![FsChangeEvent::Removed("/w/a.png".to_string())]);
}

#[test]
fn paths_settle_independently() {
    let mut b = DebounceBuffer::new();
    b.record("/w/a.jpg".to_string(), ChangeKind::Created, 0);
    b.record("/w/b.jpg".to_string(), ChangeKind::Modified, 300);
    assert_eq!(b.take_due(500, DEBOUNCE_MS), vec![FsChangeEvent::Created("/w/a.jpg".to_string())]);
    assert_eq!(b.len(), 1);
    assert_eq!(b.take_due(800, DEBOUNCE_MS), vec![FsChangeEvent::Modified("/w/b.jpg".to_string())]);
}

#[test]
fn collect_filters_paths_and_kinds() {
    let mut b = DebounceBuffer::new();
    b.collect(
        Some(ChangeKind::Created),
        vec![
            Some("/w/a.JPG".to_string()),
            Some("/w/notes.txt".to_string()),
            None,
            Some("/w/scan.tif".to_string()),
            Some("/w/clip.mp4".to_string()),
        ],
        0,
    );
    assert_eq!(b.len(), 2);
    b.collect(None, vec![Some("/w/c.jpg".to_string())], 0);
    assert_eq!(b.len(), 2);
    let events = b.take_due(DEBOUNCE_MS, DEBOUNCE_MS);
    assert_eq!(
        events,
        vec![
            FsChangeEvent::Created("/w/a.JPG".to_string()),
            FsChangeEvent::Created("/w/scan.tif".to_string()),
        ]
    );
}

#[test]
fn clock_going_back_counts_as_no_time() {
    let mut b = DebounceBuffer::new();
    b.record("/w/a.jpg".to_string(), ChangeKind::Modified, 1000);
    assert!(b.take_due(10, DEBOUNCE_MS).is_empty());
    assert_eq!(b.take_due(10, 0).len(), 1);
}

#[test]
fn watched_paths() {
    assert!(is_watched_path("/w/a.jpeg"));
    assert!(is_watched_path("/w/a.TIFF"));
    assert!(!is_watched_path("/w/a.mp4"));
    assert!(!is_watched_path("/w/jpg"));
}

#[test]
fn session_replaces_and_ends() {
    let mut state = WatcherState::default();
    assert!(!state.is_watching());
    let (tx1, rx1) = channel::<()>();
    assert!(state.begin(tx1, "/one".to_string()).is_none());
    assert!(state.is_watching());
    assert_eq!(state.watching_path.as_deref(), Some("/one"));
    let (tx2, rx2) = channel::<()>();
    let previous = state.begin(tx2, "/two".to_string()).unwrap();
    previous.send(()).unwrap();
    assert!(rx1.try_recv().is_ok());
    assert_eq!(state.watching_path.as_deref(), Some("/two"));
    let last = state.end().unwrap();
    last.send(()).unwrap();
    assert!(rx2.try_recv().is_ok());
    assert!(!state.is_watching());
    assert!(state.watching_path.is_none());
    assert!(state.end().is_none());
}
