use colis_session::cache::CredentialCache;
use colis_session::session::{AccountKey, SessionToken, SECONDS_PER_HOUR};

const T0: i64 = 1_700_000_000;

#[test]
fn a_new_cache_is_empty() {
    let cache = CredentialCache::new();
    assert_eq!(cache.len(), 0);
    assert_eq!(cache.get(&AccountKey::new("U1", "S1")), None);
}

#[test]
fn put_then_get_is_fresh_until_the_window_ends() {
    let mut cache = CredentialCache::new();
    let key = AccountKey::new("U1", "S1");
    cache.put_at(key.clone(), "abc123".to_string(), 24, T0);
    let session = cache.get(&key).expect("stored");
    assert_eq!(session.token(), "abc123");
    assert_eq!(session.issued_at(), T0);
    assert_eq!(session.expires_at(), T0 + 86_400);
    assert!(session.is_fresh_at(T0));
    assert!(session.is_fresh_at(T0 + 86_399));
    assert!(!session.is_fresh_at(T0 + 86_400));
    assert!(!session.is_fresh_at(T0 + 86_401));
    assert!(!session.is_expired_at(T0 + 86_399));
    assert!(session.is_expired_at(T0 + 86_400));
}

#[test]
fn issue_computes_the_expiry_in_seconds() {
    assert_eq!(SECONDS_PER_HOUR, 3600);
    let session = SessionToken::issue("t".to_string(), 1000, 1);
    assert_eq!(session.issued_at(), 1000);
    assert_eq!(session.expires_at(), 4600);
    let long = SessionToken::issue("t".to_string(), 0, u32::MAX);
    assert_eq!(long.expires_at(), 4_294_967_295 * 3600);
}

#[test]
fn a_second_put_leaves_no_trace_of_the_first() {
    let mut cache = CredentialCache::new();
    let key = AccountKey::new("U1", "S1");
    cache.put_at(key.clone(), "first".to_string(), 24, T0);
    cache.put_at(key.clone(), "second".to_string(), 24, T0 + 10);
    assert_eq!(cache.len(), 1);
    let session = cache.get(&key).expect("stored");
    assert_eq!(session.token(), "second");
    assert_eq!(session.issued_at(), T0 + 10);
    assert_eq!(session.expires_at(), T0 + 10 + 86_400);
}

#[test]
fn keys_differ_when_either_part_differs() {
    let mut cache = CredentialCache::new();
    cache.put_at(AccountKey::new("U1", "S1"), "a".to_string(), 24, T0);
    cache.put_at(AccountKey::new("U1", "S2"), "b".to_string(), 24, T0);
    cache.put_at(AccountKey::new("U2", "S1"), "c".to_string(), 24, T0);
    cache.put_at(AccountKey::new("u1", "S1"), "d".to_string(), 24, T0);
    assert_eq!(cache.len(), 4);
    assert_eq!(cache.get(&AccountKey::new("U1", "S1")).expect("kept").token(), "a");
    assert_eq!(cache.get(&AccountKey::new("U1", "S2")).expect("kept").token(), "b");
    assert_eq!(cache.get(&AccountKey::new("U2", "S1")).expect("kept").token(), "c");
    assert_eq!(cache.get(&AccountKey::new("u1", "S1")).expect("kept").token(), "d");
    assert_eq!(cache.get(&AccountKey::new("S1", "U1")), None);
    assert!(AccountKey::new("U1", "S1").same_as(&AccountKey::new("U1", "S1")));
    assert!(!AccountKey::new("U1", "S1").same_as(&AccountKey::new("U1", "s1")));
}

#[test]
fn eviction_removes_the_stale_and_keeps_the_fresh() {
    let mut cache = CredentialCache::new();
    let short = AccountKey::new("U1", "S1");
    let long = AccountKey::new("U2", "S1");
    let boundary = AccountKey::new("U3", "S1");
    cache.put_at(short.clone(), "short".to_string(), 1, T0);
    cache.put_at(long.clone(), "long".to_string(), 24, T0);
    cache.put_at(boundary.clone(), "boundary".to_string(), 2, T0);
    let removed = cache.evict_expired_at(T0 + 2 * 3600);
    assert_eq!(removed, 2);
    assert_eq!(cache.len(), 1);
    assert_eq!(cache.get(&short), None);
    assert_eq!(cache.get(&boundary), None);
    let kept = cache.get(&long).expect("fresh entries stay");
    assert_eq!(kept.token(), "long");
    assert_eq!(kept.issued_at(), T0);
    assert_eq!(kept.expires_at(), T0 + 86_400);
}

#[test]
fn eviction_of_nothing_changes_nothing() {
    let mut cache = CredentialCache::new();
    assert_eq!(cache.evict_expired_at(T0), 0);
    cache.put_at(AccountKey::new("U1", "S1"), "a".to_string(), 24, T0);
    assert_eq!(cache.evict_expired_at(T0 + 86_399), 0);
    assert_eq!(cache.len(), 1);
    assert_eq!(cache.evict_expired_at(T0 + 86_400), 1);
    assert_eq!(cache.len(), 0);
}

#[test]
fn get_does_not_judge_freshness() {
    let mut cache = CredentialCache::new();
    let key = AccountKey::new("U1", "S1");
    cache.put_at(key.clone(), "old".to_string(), 1, T0);
    let session = cache.get(&key).expect("still kept until evicted");
    assert!(session.is_expired_at(T0 + 10_000));
}

#[test]
fn put_by_the_clock_stores_what_it_returns() {
    let mut cache = CredentialCache::new();
    let key = AccountKey::new("U1", "S1");
    let session = cache.put(key.clone(), "abc".to_string(), 24);
    assert_eq!(session.token(), "abc");
    assert!(session.issued_at() > 1_600_000_000);
    assert_eq!(session.expires_at(), session.issued_at() + 86_400);
    assert_eq!(cache.get(&key), Some(session));
    let (now, removed) = cache.evict_expired();
    assert!(now > 1_600_000_000);
    assert_eq!(removed, 0);
    assert_eq!(cache.len(), 1);
}
