use vstd::prelude::*;

use crate::basic::BasicUser;
use crate::cache::{spec_inserted, AuthCache};
use crate::errors::Error;
use crate::store::Store;
use crate::table::first_idx;
use crate::user::{bcrypt_verify_errs, by_email, by_id, password_verifies, verify_user, User};

verus! {

/// How many entries the shared auth cache holds at most.
pub const AUTH_CACHE_CAPACITY: usize = 10000;

/// How long a successful verification is remembered, in seconds: a day,
/// as verification is a very slow process.
pub const AUTH_TTL_SECS: u64 = 86400;

/// Relies on chrono's `Utc::now` for the wall clock, reduced to whole
/// seconds since the epoch. Nothing can be promised of the clock's value.
#[verifier::external_body]
fn chrono_now_timestamp() -> i64 {
    chrono::Utc::now().timestamp()
}

/// The wall clock as seconds since the epoch, clamped below at zero so
/// the rest of the crate can count time in unsigned seconds.
pub fn current_seconds() -> u64 {
    let t = chrono_now_timestamp();
    if t < 0 {
        0
    } else {
        t as u64
    }
}

/// What one request knows: the identity it authenticated as, if any.
pub struct Context {
    pub user: Option<User>,
}

impl Context {
    /// The authenticated user, or a refusal for an anonymous request.
    pub fn auth_user(&self) -> (r: Result<&User, Error>)
        ensures
            match r {
                Ok(u) => self.user is Some && *u == self.user.unwrap(),
                Err(e) => e == Error::Unauthorized && self.user is None,
            },
    {
        match &self.user {
            Some(u) => Ok(u),
            None => Err(Error::Unauthorized),
        }
    }

    /// The authenticated user, provided it holds admin rights; any other
    /// request, anonymous or not, is refused.
    pub fn admin_only(&self) -> (r: Result<&User, Error>)
        ensures
            match r {
                Ok(u) => self.user is Some && *u == self.user.unwrap() && u.type_ is Admin,
                Err(e) => e == Error::Unauthorized && (self.user is None || !(
                self.user.unwrap().type_ is Admin)),
            },
    {
        match self.auth_user() {
            Ok(user) => {
                if user.is_admin() {
                    Ok(user)
                } else {
                    Err(Error::Unauthorized)
                }
            },
            Err(e) => Err(e),
        }
    }

    /// The authenticated user, provided it is exactly the user with the
    /// given id; any other request is refused.
    pub fn me_only(&self, id: i32) -> (r: Result<&User, Error>)
        ensures
            match r {
                Ok(u) => self.user is Some && *u == self.user.unwrap() && u.id == id,
                Err(e) => e == Error::Unauthorized && (self.user is None || self.user.unwrap().id
                    != id),
            },
    {
        match self.auth_user() {
            Ok(user) => {
                if user.id == id {
                    Ok(user)
                } else {
                    Err(Error::Unauthorized)
                }
            },
            Err(e) => Err(e),
        }
    }
}

/// What resolving a credential at time `now` does to the cache and
/// returns. A live cache entry short-circuits the slow path: its user must
/// still exist, and is returned with the cache untouched; a cached id whose
/// user is gone is refused, never silently anonymous. Without a usable
/// entry the user is found by email and the password verified slowly; only
/// then is the credential remembered.
pub open spec fn spec_auth_outcome(
    store: Store,
    pre: AuthCache,
    post: AuthCache,
    cred: BasicUser,
    now: u64,
    r: Result<User, Error>,
) -> bool {
    let hit = pre.spec_get(cred, now);
    if hit is Some {
        let uat = first_idx(store.users@, by_id(hit.unwrap()));
        &&& post == pre
        &&& if uat >= 0 {
            r == Ok::<User, Error>(store.users@[uat])
        } else {
            r == Err::<User, Error>(Error::Unauthorized)
        }
    } else {
        let eat = first_idx(store.users@, by_email(cred.username@));
        if eat == -1 {
            r == Err::<User, Error>(Error::Unauthorized) && post == pre
        } else {
            let u = store.users@[eat];
            &&& (r matches Ok(ru) ==> ru == u && password_verifies(cred.password@, u.password@)
                && !bcrypt_verify_errs(cred.password@, u.password@) && spec_inserted(
                pre,
                post,
                cred,
                u.id,
                now,
                AUTH_TTL_SECS,
            ))
            &&& (r is Err <==> bcrypt_verify_errs(cred.password@, u.password@)
                || !password_verifies(cred.password@, u.password@))
            &&& (r is Err ==> r == Err::<User, Error>(Error::Unauthorized) && post == pre)
        }
    }
}

/// A live cache hit whose user still exists resolves to that user with
/// the cache untouched: the slow verification plays no part.
pub proof fn lemma_cached_hit_resolves(
    store: Store,
    pre: AuthCache,
    post: AuthCache,
    cred: BasicUser,
    now: u64,
    r: Result<User, Error>,
)
    requires
        spec_auth_outcome(store, pre, post, cred, now, r),
        pre.spec_get(cred, now) is Some,
        first_idx(store.users@, by_id(pre.spec_get(cred, now).unwrap())) >= 0,
    ensures
        post == pre,
        r == Ok::<User, Error>(
            store.users@[first_idx(store.users@, by_id(pre.spec_get(cred, now).unwrap()))],
        ),
{
}

/// A live cache entry pointing at a user that no longer exists is refused,
/// never treated as anonymous.
pub proof fn lemma_stale_hit_is_refused(
    store: Store,
    pre: AuthCache,
    post: AuthCache,
    cred: BasicUser,
    now: u64,
    r: Result<User, Error>,
)
    requires
        spec_auth_outcome(store, pre, post, cred, now, r),
        pre.spec_get(cred, now) is Some,
        first_idx(store.users@, by_id(pre.spec_get(cred, now).unwrap())) == -1,
    ensures
        r == Err::<User, Error>(Error::Unauthorized),
        post == pre,
{
}

/// A credential with no live cache entry that resolves successfully has
/// been fully verified, and leaves exactly one entry for itself behind.
pub proof fn lemma_first_use_is_verified_and_cached(
    store: Store,
    pre: AuthCache,
    post: AuthCache,
    cred: BasicUser,
    now: u64,
    u: User,
)
    requires
        spec_auth_outcome(store, pre, post, cred, now, Ok(u)),
        pre.spec_get(cred, now) is None,
    ensures
        ({
            let eat = first_idx(store.users@, by_email(cred.username@));
            &&& eat >= 0 && u == store.users@[eat]
            &&& password_verifies(cred.password@, u.password@)
            &&& crate::cache::spec_inserted(pre, post, cred, u.id, now, AUTH_TTL_SECS)
        }),
{
    crate::table::lemma_first_idx(store.users@, by_email(cred.username@));
}

/// A credential with no live cache entry, naming a user whose stored hash
/// the verifier can read and whose password matches, is owed success: the
/// outcome admits no refusal on it.
pub proof fn lemma_verifying_credential_is_owed_success(
    store: Store,
    pre: AuthCache,
    post: AuthCache,
    cred: BasicUser,
    now: u64,
    r: Result<User, Error>,
)
    requires
        spec_auth_outcome(store, pre, post, cred, now, r),
        pre.spec_get(cred, now) is None,
        first_idx(store.users@, by_email(cred.username@)) >= 0,
        ({
            let u = store.users@[first_idx(store.users@, by_email(cred.username@))];
            password_verifies(cred.password@, u.password@) && !bcrypt_verify_errs(
                cred.password@,
                u.password@,
            )
        }),
    ensures
        r is Ok,
{
}

/// Resolves a credential to a user. The boolean says whether the slow
/// password verification ran: a live cache hit resolves without it.
pub fn authenticate(store: &Store, cache: &mut AuthCache, cred: &BasicUser, now: u64) -> (r:
    Result<(User, bool), Error>)
    requires
        store.wf(),
        old(cache).wf(),
    ensures
        final(cache).wf(),
        ({
            let mapped = match r {
                Ok(p) => Ok::<User, Error>(p.0),
                Err(e) => Err::<User, Error>(e),
            };
            spec_auth_outcome(*store, *old(cache), *final(cache), *cred, now, mapped)
        }),
        r matches Ok(p) ==> p.1 == !(old(cache).spec_get(*cred, now) is Some),
{
    // Check if the user is already in the cache.
    if let Some(user_id) = cache.get(cred, now) {
        return match User::find(user_id, store) {
            Ok(user) => Ok((user, false)),
            Err(_) => Err(Error::Unauthorized),
        };
    }

    // Else verify the user the slow way.
    let found = match User::find_by_email(cred.username.as_str(), store) {
        Ok(u) => u,
        Err(_) => {
            return Err(Error::Unauthorized);
        },
    };
    let found_user = match verify_user(found, cred.password.as_str()) {
        Ok(u) => u,
        Err(_) => {
            return Err(Error::Unauthorized);
        },
    };

    // And remember it for the rest of the day, as verification is a very
    // slow process.
    cache.insert(cred.clone(), found_user.id, now, AUTH_TTL_SECS);
    Ok((found_user, true))
}

/// Resolves an optional credential for one request: no credential means an
/// anonymous request, not an error; a credential that cannot be resolved
/// is refused.
pub fn user_lookup(store: &Store, cache: &mut AuthCache, user: Option<BasicUser>, now: u64) -> (r:
    Result<Option<User>, Error>)
    requires
        store.wf(),
        old(cache).wf(),
    ensures
        final(cache).wf(),
        match user {
            Option::None => r == Ok::<Option<User>, Error>(None) && *final(cache) == *old(cache),
            Option::Some(cred) => {
                let mapped = match r {
                    Ok(ou) => Ok::<User, Error>(ou.unwrap()),
                    Err(e) => Err::<User, Error>(e),
                };
                (r matches Ok(ou) ==> ou is Some) && spec_auth_outcome(
                    *store,
                    *old(cache),
                    *final(cache),
                    cred,
                    now,
                    mapped,
                )
            },
        },
{
    if let Some(cred) = user {
        match authenticate(store, cache, &cred, now) {
            Ok((found, _)) => Ok(Some(found)),
            Err(e) => Err(e),
        }
    } else {
        Ok(None)
    }
}

} // verus!
