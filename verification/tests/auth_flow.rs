use paryxa::auth::{authenticate, user_lookup, AUTH_TTL_SECS};
use paryxa::user::UserCredentialsUpdate;
use paryxa::basic::BasicUser;
use paryxa::cache::AuthCache;
use paryxa::errors::Error;
use paryxa::store::Store;
use paryxa::user::{User, UserForm};

fn cred(username: &str, password: &str) -> BasicUser {
    BasicUser {
        username: username.to_string(),
        password: password.to_string(),
    }
}

fn store_with_user(email: &str, password: &str) -> (Store, User) {
    let mut store = Store::new();
    let form = UserForm {
        email: email.to_string(),
        password: password.to_string(),
    };
    let user = form.save(&mut store).expect("user should be created");
    (store, user)
}

#[test]
fn first_authentication_verifies_and_caches() {
    let (store, user) = store_with_user("a@b.com", "pw");
    let mut cache = AuthCache::new(16);
    let now = 1_000;

    let (found, slow) = authenticate(&store, &mut cache, &cred("a@b.com", "pw"), now)
        .expect("correct credentials should authenticate");
    assert_eq!(found.id, user.id);
    assert!(slow, "a credential never seen before takes the slow path");
    assert_eq!(cache.len(), 1, "exactly one cache entry is inserted");
}

#[test]
fn second_authentication_within_ttl_skips_verification() {
    let (store, user) = store_with_user("a@b.com", "pw");
    let mut cache = AuthCache::new(16);
    let now = 1_000;

    let (_, slow1) = authenticate(&store, &mut cache, &cred("a@b.com", "pw"), now).unwrap();
    assert!(slow1);

    let (found, slow2) =
        authenticate(&store, &mut cache, &cred("a@b.com", "pw"), now + AUTH_TTL_SECS - 1).unwrap();
    assert_eq!(found.id, user.id);
    assert!(!slow2, "a live cache entry resolves without re-hashing");
    assert_eq!(cache.len(), 1);
}

#[test]
fn expired_entry_takes_the_slow_path_again() {
    let (store, _) = store_with_user("a@b.com", "pw");
    let mut cache = AuthCache::new(16);
    let now = 1_000;

    authenticate(&store, &mut cache, &cred("a@b.com", "pw"), now).unwrap();
    let (_, slow) =
        authenticate(&store, &mut cache, &cred("a@b.com", "pw"), now + AUTH_TTL_SECS).unwrap();
    assert!(slow, "at the TTL boundary the entry has lapsed");
}

#[test]
fn cached_credential_of_deleted_user_is_refused() {
    let (mut store, user) = store_with_user("a@b.com", "pw");
    let mut cache = AuthCache::new(16);
    let now = 1_000;

    authenticate(&store, &mut cache, &cred("a@b.com", "pw"), now).unwrap();
    User::delete_by_uuid(user.uuid, &mut store).expect("the user exists");

    let again = authenticate(&store, &mut cache, &cred("a@b.com", "pw"), now + 5);
    assert_eq!(again.unwrap_err(), Error::Unauthorized);
}

#[test]
fn wrong_password_is_refused_and_not_cached() {
    let (store, _) = store_with_user("a@b.com", "pw");
    let mut cache = AuthCache::new(16);

    let r = authenticate(&store, &mut cache, &cred("a@b.com", "nope"), 1_000);
    assert_eq!(r.unwrap_err(), Error::Unauthorized);
    assert_eq!(cache.len(), 0);
}

#[test]
fn unknown_email_is_refused() {
    let (store, _) = store_with_user("a@b.com", "pw");
    let mut cache = AuthCache::new(16);

    let r = authenticate(&store, &mut cache, &cred("missing@b.com", "pw"), 1_000);
    assert_eq!(r.unwrap_err(), Error::Unauthorized);
}

#[test]
fn anonymous_lookup_is_not_an_error() {
    let store = Store::new();
    let mut cache = AuthCache::new(16);

    let r = user_lookup(&store, &mut cache, None, 1_000).unwrap();
    assert!(r.is_none());
}

#[test]
fn lookup_with_credential_resolves_the_user() {
    let (store, user) = store_with_user("a@b.com", "pw");
    let mut cache = AuthCache::new(16);

    let r = user_lookup(&store, &mut cache, Some(cred("a@b.com", "pw")), 1_000).unwrap();
    assert_eq!(r.expect("a user is resolved").id, user.id);
}

#[test]
fn password_change_invalidates_the_old_credential() {
    let (mut store, user) = store_with_user("a@b.com", "pw");
    let mut cache = AuthCache::new(16);
    let now = 1_000;

    authenticate(&store, &mut cache, &cred("a@b.com", "pw"), now).unwrap();
    assert_eq!(cache.len(), 1);

    let update = UserCredentialsUpdate {
        email: None,
        new_password: Some("fresh".to_string()),
        password: "pw".to_string(),
    };
    update
        .save(user.uuid, &mut store, &mut cache)
        .expect("the current password is correct");
    assert_eq!(cache.len(), 0, "the old credential's entry is evicted");

    let old = authenticate(&store, &mut cache, &cred("a@b.com", "pw"), now + 5);
    assert_eq!(
        old.unwrap_err(),
        Error::Unauthorized,
        "the old password no longer verifies"
    );

    let (_, slow) = authenticate(&store, &mut cache, &cred("a@b.com", "fresh"), now + 5).unwrap();
    assert!(slow);
}
