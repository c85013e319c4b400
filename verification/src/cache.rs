use vstd::prelude::*;

use crate::basic::BasicUser;
use crate::strings::str_eq;
use crate::table::{first_idx, lemma_first_idx, lemma_first_idx_at};

verus! {

/// One cache entry: a credential, the id of the user it resolved to, and
/// the moment (seconds since the epoch) at which the entry lapses.
pub struct CacheEntry {
    pub user: BasicUser,
    pub user_id: i32,
    pub expires_at: u64,
}

/// The key under which an entry is stored: both credential parts.
pub open spec fn entry_key(e: CacheEntry) -> (Seq<char>, Seq<char>) {
    (e.user.username@, e.user.password@)
}

/// Matches the entry stored under the given key.
pub open spec fn by_key(k: (Seq<char>, Seq<char>)) -> spec_fn(CacheEntry) -> bool {
    |e: CacheEntry| entry_key(e) == k
}

/// The key of a credential.
pub open spec fn cred_key(u: BasicUser) -> (Seq<char>, Seq<char>) {
    (u.username@, u.password@)
}

/// No two entries share a key.
pub open spec fn keys_distinct(s: Seq<CacheEntry>) -> bool {
    forall|i: int, j: int|
        0 <= i < j < s.len() ==> entry_key(#[trigger] s[i]) != entry_key(#[trigger] s[j])
}

/// When an entry inserted at `now` with the given time to live lapses;
/// the addition saturates instead of wrapping.
pub open spec fn spec_expiry(now: u64, ttl: u64) -> u64 {
    if now + ttl <= u64::MAX {
        (now + ttl) as u64
    } else {
        u64::MAX
    }
}

/// A capacity-bounded credential cache with per-entry expiry. Entries are
/// kept in insertion order, so the front holds the oldest; when the cache
/// is full, inserting evicts the front. The clock is handed in by callers,
/// so nothing here reads the machine's time.
pub struct AuthCache {
    pub entries: Vec<CacheEntry>,
    pub capacity: usize,
}

/// What inserting a credential leaves in the cache: an entry already stored
/// under the same key goes away first, then the oldest entry if the cache
/// is still full, and the new entry joins at the back.
pub open spec fn spec_inserted(
    pre: AuthCache,
    post: AuthCache,
    user: BasicUser,
    user_id: i32,
    now: u64,
    ttl: u64,
) -> bool {
    let dup = first_idx(pre.entries@, by_key(cred_key(user)));
    let after_dup = if dup >= 0 {
        pre.entries@.remove(dup)
    } else {
        pre.entries@
    };
    let after_evict = if after_dup.len() >= pre.capacity {
        after_dup.subrange(1, after_dup.len() as int)
    } else {
        after_dup
    };
    &&& post.entries@ == after_evict.push(
        CacheEntry { user, user_id, expires_at: spec_expiry(now, ttl) },
    )
    &&& post.capacity == pre.capacity
}

/// Removing one entry keeps keys pairwise distinct.
proof fn lemma_keys_distinct_remove(s: Seq<CacheEntry>, at: int)
    requires
        keys_distinct(s),
        0 <= at < s.len(),
    ensures
        keys_distinct(s.remove(at)),
{
    let r = s.remove(at);
    assert forall|i: int, j: int| 0 <= i < j < r.len() implies entry_key(#[trigger] r[i])
        != entry_key(#[trigger] r[j]) by {
        let si = if i < at { i } else { i + 1 };
        let sj = if j < at { j } else { j + 1 };
        assert(r[i] == s[si] && r[j] == s[sj]);
    }
}

/// Dropping the front keeps keys pairwise distinct.
proof fn lemma_keys_distinct_tail(s: Seq<CacheEntry>)
    requires
        keys_distinct(s),
        s.len() >= 1,
    ensures
        keys_distinct(s.subrange(1, s.len() as int)),
{
    let r = s.subrange(1, s.len() as int);
    assert forall|i: int, j: int| 0 <= i < j < r.len() implies entry_key(#[trigger] r[i])
        != entry_key(#[trigger] r[j]) by {
        assert(r[i] == s[i + 1] && r[j] == s[j + 1]);
    }
}

/// After removing the first entry stored under a key, no entry under that
/// key remains: keys are distinct, so there was at most one.
pub proof fn lemma_remove_only_match(s: Seq<CacheEntry>, k: (Seq<char>, Seq<char>), at: int)
    requires
        keys_distinct(s),
        first_idx(s, by_key(k)) == at,
        0 <= at < s.len(),
    ensures
        first_idx(s.remove(at), by_key(k)) == -1,
{
    lemma_first_idx(s, by_key(k));
    let r = s.remove(at);
    assert forall|i: int| 0 <= i < r.len() implies entry_key(#[trigger] r[i]) != k by {
        if i < at {
            assert(r[i] == s[i]);
        } else {
            assert(r[i] == s[i + 1]);
        }
    }
    lemma_first_idx(r, by_key(k));
    assert forall|i: int| 0 <= i < r.len() implies !(by_key(k)(#[trigger] r[i])) by {}
}

/// Appending an entry whose key is absent keeps keys pairwise distinct.
proof fn lemma_keys_distinct_push(s: Seq<CacheEntry>, e: CacheEntry)
    requires
        keys_distinct(s),
        forall|i: int| 0 <= i < s.len() ==> entry_key(#[trigger] s[i]) != entry_key(e),
    ensures
        keys_distinct(s.push(e)),
{
    let r = s.push(e);
    assert forall|i: int, j: int| 0 <= i < j < r.len() implies entry_key(#[trigger] r[i])
        != entry_key(#[trigger] r[j]) by {
        if j < s.len() {
            assert(r[i] == s[i] && r[j] == s[j]);
        } else {
            assert(r[i] == s[i] && r[j] == e);
        }
    }
}

/// Inserting a credential never seen before into a cache with room simply
/// appends its entry, with its expiry a full time-to-live away; every
/// other entry is kept exactly as it was.
pub proof fn lemma_insert_fresh_appends(
    pre: AuthCache,
    post: AuthCache,
    user: BasicUser,
    user_id: i32,
    now: u64,
    ttl: u64,
)
    requires
        spec_inserted(pre, post, user, user_id, now, ttl),
        first_idx(pre.entries@, by_key(cred_key(user))) == -1,
        pre.entries@.len() < pre.capacity,
    ensures
        post.entries@ == pre.entries@.push(
            CacheEntry { user, user_id, expires_at: spec_expiry(now, ttl) },
        ),
{
}

/// An entry just inserted for a credential is the one its lookup finds,
/// until it lapses: keys are unique, so the fresh entry at the back is the
/// only match.
pub proof fn lemma_inserted_entry_is_found(
    pre: AuthCache,
    post: AuthCache,
    user: BasicUser,
    user_id: i32,
    now: u64,
    ttl: u64,
    t: u64,
)
    requires
        spec_inserted(pre, post, user, user_id, now, ttl),
        post.wf(),
        t < spec_expiry(now, ttl),
    ensures
        post.spec_get(user, t) == Some(user_id),
{
    let s = post.entries@;
    let last = s.len() - 1;
    assert(entry_key(s[last]) == cred_key(user));
    assert forall|k: int| 0 <= k < last implies !(by_key(cred_key(user))(#[trigger] s[k])) by {
        assert(entry_key(s[k]) != entry_key(s[last]));
    }
    lemma_first_idx_at(s, by_key(cred_key(user)), last);
}

impl AuthCache {
    /// Well-formedness: a positive capacity bounds the entry count, and no
    /// key is stored twice.
    pub open spec fn wf(&self) -> bool {
        &&& 1 <= self.capacity
        &&& self.entries@.len() <= self.capacity
        &&& keys_distinct(self.entries@)
    }

    /// An empty cache holding at most `capacity` entries.
    pub fn new(capacity: usize) -> (r: AuthCache)
        requires
            capacity >= 1,
        ensures
            r.wf(),
            r.entries@.len() == 0,
            r.capacity == capacity,
    {
        AuthCache { entries: Vec::new(), capacity }
    }

    /// What looking a credential up at time `now` yields: the stored user
    /// id, provided an entry is present and has not lapsed.
    pub open spec fn spec_get(&self, user: BasicUser, now: u64) -> Option<i32> {
        let at = first_idx(self.entries@, by_key(cred_key(user)));
        if at >= 0 && now < self.entries@[at].expires_at {
            Some(self.entries@[at].user_id)
        } else {
            None
        }
    }

    /// Looks the credential up, honouring expiry against the given clock.
    pub fn get(&self, user: &BasicUser, now: u64) -> (r: Option<i32>)
        ensures
            r == self.spec_get(*user, now),
    {
        let n = self.entries.len();
        let mut i: usize = 0;
        while i < n
            invariant
                n == self.entries@.len(),
                0 <= i <= n,
                forall|k: int| 0 <= k < i ==> entry_key(#[trigger] self.entries@[k]) != cred_key(
                    *user,
                ),
            decreases n - i,
        {
            let e = &self.entries[i];
            if str_eq(e.user.username.as_str(), user.username.as_str()) && str_eq(
                e.user.password.as_str(),
                user.password.as_str(),
            ) {
                proof {
                    lemma_first_idx_at(self.entries@, by_key(cred_key(*user)), i as int);
                }
                if now < e.expires_at {
                    return Some(e.user_id);
                } else {
                    return None;
                }
            }
            i = i + 1;
        }
        proof {
            lemma_first_idx(self.entries@, by_key(cred_key(*user)));
        }
        None
    }

    /// Remembers that the credential resolved to `user_id`, for `ttl`
    /// seconds from `now`. An entry under the same key is replaced; when
    /// the cache is full beyond that, the oldest entry leaves.
    pub fn insert(&mut self, user: BasicUser, user_id: i32, now: u64, ttl: u64)
        requires
            old(self).wf(),
        ensures
            final(self).wf(),
            spec_inserted(*old(self), *final(self), user, user_id, now, ttl),
            final(self).spec_get(user, now) == (if now < spec_expiry(now, ttl) {
                Some(user_id)
            } else {
                None::<i32>
            }),
    {
        let n = self.entries.len();
        let mut i: usize = 0;
        let mut dup: Option<usize> = None;
        while i < n
            invariant
                *self == *old(self),
                n == self.entries@.len(),
                0 <= i <= n,
                match dup {
                    Some(d) => d < n && entry_key(self.entries@[d as int]) == cred_key(user)
                        && first_idx(self.entries@, by_key(cred_key(user))) == d as int,
                    None => forall|k: int|
                        0 <= k < i ==> entry_key(#[trigger] self.entries@[k]) != cred_key(user),
                },
                dup is Some ==> i == n,
            decreases n - i,
        {
            let e = &self.entries[i];
            if str_eq(e.user.username.as_str(), user.username.as_str()) && str_eq(
                e.user.password.as_str(),
                user.password.as_str(),
            ) {
                proof {
                    lemma_first_idx_at(self.entries@, by_key(cred_key(user)), i as int);
                }
                dup = Some(i);
                i = n;
            } else {
                i = i + 1;
            }
        }
        match dup {
            Some(d) => {
                proof {
                    lemma_keys_distinct_remove(self.entries@, d as int);
                }
                self.entries.remove(d);
            },
            None => {
                proof {
                    lemma_first_idx(self.entries@, by_key(cred_key(user)));
                }
            },
        }
        if self.entries.len() >= self.capacity {
            proof {
                lemma_keys_distinct_tail(self.entries@);
            }
            self.entries.remove(0);
        }
        let expires_at = if now <= u64::MAX - ttl {
            now + ttl
        } else {
            u64::MAX
        };
        let ghost gkey = cred_key(user);
        let entry = CacheEntry { user, user_id, expires_at };
        proof {
            lemma_keys_distinct_push(self.entries@, entry);
        }
        self.entries.push(entry);
        proof {
            lemma_first_idx_at(self.entries@, by_key(gkey), self.entries@.len() - 1);
        }
    }

    /// Forgets the entry stored under the credential, if any, and hands
    /// back the user id it held.
    pub fn remove(&mut self, user: &BasicUser) -> (r: Option<i32>)
        requires
            old(self).wf(),
        ensures
            final(self).wf(),
            final(self).capacity == old(self).capacity,
            ({
                let at = first_idx(old(self).entries@, by_key(cred_key(*user)));
                if at >= 0 {
                    r == Some(old(self).entries@[at].user_id) && final(self).entries@ == old(
                        self,
                    ).entries@.remove(at)
                } else {
                    r is None && final(self).entries@ == old(self).entries@
                }
            }),
            first_idx(final(self).entries@, by_key(cred_key(*user))) == -1,
    {
        let n = self.entries.len();
        let mut i: usize = 0;
        while i < n
            invariant
                *self == *old(self),
                old(self).wf(),
                n == self.entries@.len(),
                0 <= i <= n,
                forall|k: int| 0 <= k < i ==> entry_key(#[trigger] self.entries@[k]) != cred_key(
                    *user,
                ),
            decreases n - i,
        {
            let e = &self.entries[i];
            if str_eq(e.user.username.as_str(), user.username.as_str()) && str_eq(
                e.user.password.as_str(),
                user.password.as_str(),
            ) {
                proof {
                    lemma_first_idx_at(self.entries@, by_key(cred_key(*user)), i as int);
                    lemma_keys_distinct_remove(self.entries@, i as int);
                    lemma_remove_only_match(self.entries@, cred_key(*user), i as int);
                }
                let user_id = self.entries[i].user_id;
                self.entries.remove(i);
                return Some(user_id);
            }
            i = i + 1;
        }
        proof {
            lemma_first_idx(self.entries@, by_key(cred_key(*user)));
        }
        None
    }

    /// How many entries the cache holds.
    pub fn len(&self) -> (r: usize)
        ensures
            r == self.entries@.len(),
    {
        self.entries.len()
    }
}

} // verus!
