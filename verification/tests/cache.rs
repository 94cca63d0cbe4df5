use currency::{is_fresh, CacheState};

#[test]
fn file_modified_a_second_ago_is_fresh() {
    assert!(is_fresh(CacheState::Modified(1_700_000_000 - 1), 1_700_000_000));
}

#[test]
fn file_of_an_hour_ago_is_stale() {
    assert!(!is_fresh(CacheState::Modified(1_700_000_000 - 3600), 1_700_000_000));
    assert!(!is_fresh(CacheState::Modified(1_700_000_000 - 86_400), 1_700_000_000));
    assert!(!is_fresh(CacheState::Modified(0), 1_700_000_000));
}

#[test]
fn last_fresh_second() {
    assert!(is_fresh(CacheState::Modified(1_700_000_000 - 3599), 1_700_000_000));
    assert!(is_fresh(CacheState::Modified(1_700_000_000), 1_700_000_000));
}

#[test]
fn missing_or_unreadable_file_is_not_fresh() {
    assert!(!is_fresh(CacheState::Missing, 1_700_000_000));
    assert!(!is_fresh(CacheState::Unreadable, 1_700_000_000));
    assert!(!is_fresh(CacheState::Missing, 0));
}

#[test]
fn file_from_the_future_is_fresh() {
    assert!(is_fresh(CacheState::Modified(1_700_000_100), 1_700_000_000));
    assert!(is_fresh(CacheState::Modified(u64::MAX), 0));
}

#[test]
fn age_is_counted_without_overflow() {
    assert!(!is_fresh(CacheState::Modified(0), u64::MAX));
    assert!(is_fresh(CacheState::Modified(u64::MAX - 3599), u64::MAX));
    assert!(!is_fresh(CacheState::Modified(u64::MAX - 3600), u64::MAX));
}
