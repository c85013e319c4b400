use paryxa::basic::BasicUser;
use paryxa::cache::AuthCache;

fn cred(username: &str, password: &str) -> BasicUser {
    BasicUser {
        username: username.to_string(),
        password: password.to_string(),
    }
}

#[test]
fn insert_then_get_within_ttl() {
    let mut cache = AuthCache::new(8);
    cache.insert(cred("a", "p"), 1, 100, 50);
    assert_eq!(cache.get(&cred("a", "p"), 100), Some(1));
    assert_eq!(cache.get(&cred("a", "p"), 149), Some(1));
}

#[test]
fn entries_lapse_at_their_expiry() {
    let mut cache = AuthCache::new(8);
    cache.insert(cred("a", "p"), 1, 100, 50);
    assert_eq!(cache.get(&cred("a", "p"), 150), None);
    assert_eq!(cache.get(&cred("a", "p"), 151), None);
}

#[test]
fn the_key_is_the_whole_credential() {
    let mut cache = AuthCache::new(8);
    cache.insert(cred("a", "p"), 1, 0, 100);
    assert_eq!(cache.get(&cred("a", "q"), 1), None);
    assert_eq!(cache.get(&cred("b", "p"), 1), None);
}

#[test]
fn inserting_the_same_key_replaces_the_entry() {
    let mut cache = AuthCache::new(8);
    cache.insert(cred("a", "p"), 1, 0, 100);
    cache.insert(cred("a", "p"), 2, 10, 100);
    assert_eq!(cache.len(), 1);
    assert_eq!(cache.get(&cred("a", "p"), 20), Some(2));
}

#[test]
fn a_full_cache_evicts_its_oldest_entry() {
    let mut cache = AuthCache::new(2);
    cache.insert(cred("a", "p"), 1, 0, 100);
    cache.insert(cred("b", "p"), 2, 1, 100);
    cache.insert(cred("c", "p"), 3, 2, 100);
    assert_eq!(cache.len(), 2);
    assert_eq!(cache.get(&cred("a", "p"), 3), None, "the oldest left");
    assert_eq!(cache.get(&cred("b", "p"), 3), Some(2));
    assert_eq!(cache.get(&cred("c", "p"), 3), Some(3));
}

#[test]
fn remove_forgets_the_entry_and_returns_its_value() {
    let mut cache = AuthCache::new(8);
    cache.insert(cred("a", "p"), 1, 0, 100);
    assert_eq!(cache.remove(&cred("a", "p")), Some(1));
    assert_eq!(cache.remove(&cred("a", "p")), None);
    assert_eq!(cache.get(&cred("a", "p"), 1), None);
    assert_eq!(cache.len(), 0);
}

#[test]
fn expiry_saturates_instead_of_wrapping() {
    let mut cache = AuthCache::new(2);
    cache.insert(cred("a", "p"), 1, u64::MAX - 10, u64::MAX);
    assert_eq!(cache.get(&cred("a", "p"), u64::MAX - 1), Some(1));
}
