use audio_selector::watcher::{is_relevant_event, should_restart, WatchEventKind, DEBOUNCE_NANOS};

#[test]
fn relevant_events() {
    assert!(is_relevant_event(WatchEventKind::Create));
    assert!(is_relevant_event(WatchEventKind::Modify));
    assert!(is_relevant_event(WatchEventKind::Remove));
    assert!(!is_relevant_event(WatchEventKind::Access));
    assert!(!is_relevant_event(WatchEventKind::Any));
    assert!(!is_relevant_event(WatchEventKind::Other));
}

#[test]
fn debounced_restarts() {
    assert_eq!(DEBOUNCE_NANOS, 500_000_000);
    assert!(!should_restart(WatchEventKind::Modify, 500_000_000));
    assert!(should_restart(WatchEventKind::Modify, 500_000_001));
    assert!(!should_restart(WatchEventKind::Access, 10_000_000_000));
}
