use filesmind_launcher::perf::{poisoned_perf_payload, PerfManager, PerfMessage};

#[test]
fn begin_then_end_leaves_idle() {
    let mut m = PerfManager::new();
    let begun = m.begin(true);
    assert_eq!(begun.token, 1);
    assert!(begun.active);
    assert_eq!(begun.active_tokens, 1);
    assert!(begun.caffeinate_active);
    assert_eq!(begun.message, PerfMessage::SessionStarted);
    let ended = m.end(begun.token);
    assert_eq!(ended.active_tokens, 0);
    assert!(!ended.active);
    assert!(!ended.caffeinate_active);
    assert_eq!(ended.message, PerfMessage::SessionEnded);
}

#[test]
fn end_unknown_token_changes_nothing() {
    let mut m = PerfManager::new();
    let begun = m.begin(true);
    let unknown = m.end(9999);
    assert_eq!(unknown.message, PerfMessage::TokenNotFound);
    assert!(unknown.active);
    assert_eq!(unknown.active_tokens, 1);
    assert!(unknown.caffeinate_active);
    let ended = m.end(begun.token);
    assert_eq!(ended.message, PerfMessage::SessionEnded);
    assert_eq!(ended.active_tokens, 0);
}

#[test]
fn overlapping_sessions_share_wake_lock() {
    let mut m = PerfManager::new();
    let first = m.begin(true);
    let second = m.begin(true);
    assert_ne!(first.token, second.token);
    assert_eq!(second.active_tokens, 2);
    let after_first_end = m.end(first.token);
    assert!(after_first_end.caffeinate_active);
    assert_eq!(after_first_end.active_tokens, 1);
    let after_second_end = m.end(second.token);
    assert!(!after_second_end.caffeinate_active);
    assert_eq!(after_second_end.active_tokens, 0);
}

#[test]
fn begin_retracts_token_when_spawn_fails() {
    let mut m = PerfManager::new();
    let failed = m.begin(false);
    assert_eq!(failed.token, 0);
    assert!(!failed.active);
    assert_eq!(failed.active_tokens, 0);
    assert!(!failed.caffeinate_active);
    assert_eq!(failed.message, PerfMessage::BeginFailed);
    assert_eq!(m.active_count(), 0);
    assert!(!m.wake_lock_running());
}

#[test]
fn begin_after_failed_spawn_can_succeed() {
    let mut m = PerfManager::new();
    let failed = m.begin(false);
    assert_eq!(failed.token, 0);
    let begun = m.begin(true);
    assert!(begun.active);
    assert_eq!(begun.token, 2);
    assert_eq!(begun.active_tokens, 1);
}

#[test]
fn spawn_flag_is_ignored_while_wake_lock_runs() {
    let mut m = PerfManager::new();
    let first = m.begin(true);
    assert!(m.wake_lock_running());
    let second = m.begin(false);
    assert!(second.active);
    assert_eq!(second.active_tokens, 2);
    assert!(second.caffeinate_active);
    m.end(first.token);
    m.end(second.token);
    assert!(!m.wake_lock_running());
}

#[test]
fn tokens_increase_monotonically() {
    let mut m = PerfManager::new();
    let a = m.begin(true);
    let b = m.begin(true);
    let c = m.begin(true);
    assert!(a.token < b.token && b.token < c.token);
}

#[test]
fn clear_all_releases_everything() {
    let mut m = PerfManager::new();
    m.begin(true);
    m.begin(true);
    m.clear_all();
    assert_eq!(m.active_count(), 0);
    assert!(!m.wake_lock_running());
}

#[test]
fn poisoned_lock_payload_is_degraded() {
    let p = poisoned_perf_payload(7);
    assert_eq!(p.token, 7);
    assert!(!p.active);
    assert_eq!(p.active_tokens, 0);
    assert!(!p.caffeinate_active);
    assert_eq!(p.message, PerfMessage::LockPoisoned);
}
