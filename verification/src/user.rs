use vstd::prelude::*;

use crate::basic::BasicUser;
use crate::cache::{by_key, AuthCache};
use crate::errors::Error;
use crate::field_update::{self, FieldUpdate};
use crate::store::{emails_distinct, user_id, user_uuid, Store};
use crate::strings::{contains_str, contains_str_ci, contains_sub, contains_sub_ci, str_eq};
use crate::table::{
    first_idx, lemma_first_idx, lemma_first_idx_at, lemma_push_fresh, lemma_remove_keeps,
    lemma_update_keeps,
};

verus! {

/// Gender of a user.
#[derive(Clone, Copy, Debug, PartialEq, Eq, Structural)]
pub enum Gender {
    Male,
    Female,
    Other,
}

/// Type of a user. It represents the privileges the user has.
#[derive(Clone, Copy, Debug, PartialEq, Eq, Structural)]
pub enum UserType {
    Admin,
    Normal,
}

/// The storage text for a gender.
pub open spec fn spec_gender_text(g: Gender) -> Seq<char> {
    match g {
        Gender::Male => "Male"@,
        Gender::Female => "Female"@,
        Gender::Other => "Other"@,
    }
}

/// The storage text for a user type.
pub open spec fn spec_user_type_text(t: UserType) -> Seq<char> {
    match t {
        UserType::Admin => "Admin"@,
        UserType::Normal => "Normal"@,
    }
}

impl Gender {
    /// Encodes this gender for the store's text representation.
    pub fn to_sql(&self) -> (r: &'static str)
        ensures
            r@ == spec_gender_text(*self),
    {
        match self {
            Gender::Male => "Male",
            Gender::Female => "Female",
            Gender::Other => "Other",
        }
    }

    /// Decodes a gender from the store's text representation; text that
    /// matches no variant is rejected.
    pub fn from_sql(text: &str) -> (r: Result<Gender, Error>)
        ensures
            match r {
                Ok(g) => text@ == spec_gender_text(g),
                Err(e) => e == Error::Internal && (forall|g: Gender|
                    text@ != spec_gender_text(g)),
            },
    {
        if crate::strings::str_eq(text, "Male") {
            Ok(Gender::Male)
        } else if crate::strings::str_eq(text, "Female") {
            Ok(Gender::Female)
        } else if crate::strings::str_eq(text, "Other") {
            Ok(Gender::Other)
        } else {
            proof {
                assert forall|g: Gender| text@ != spec_gender_text(g) by {
                    match g {
                        Gender::Male => {},
                        Gender::Female => {},
                        Gender::Other => {},
                    }
                }
            }
            Err(Error::Internal)
        }
    }
}

impl UserType {
    /// Encodes this user type for the store's text representation.
    pub fn to_sql(&self) -> (r: &'static str)
        ensures
            r@ == spec_user_type_text(*self),
    {
        match self {
            UserType::Admin => "Admin",
            UserType::Normal => "Normal",
        }
    }

    /// Decodes a user type from the store's text representation; text that
    /// matches no variant is rejected.
    pub fn from_sql(text: &str) -> (r: Result<UserType, Error>)
        ensures
            match r {
                Ok(t) => text@ == spec_user_type_text(t),
                Err(e) => e == Error::Internal && (forall|t: UserType|
                    text@ != spec_user_type_text(t)),
            },
    {
        if crate::strings::str_eq(text, "Admin") {
            Ok(UserType::Admin)
        } else if crate::strings::str_eq(text, "Normal") {
            Ok(UserType::Normal)
        } else {
            proof {
                assert forall|t: UserType| text@ != spec_user_type_text(t) by {
                    match t {
                        UserType::Admin => {},
                        UserType::Normal => {},
                    }
                }
            }
            Err(Error::Internal)
        }
    }
}

impl Default for UserType {
    /// A user is normal unless something decides otherwise.
    fn default() -> (r: UserType)
        ensures
            r == UserType::Normal,
    {
        UserType::Normal
    }
}

/// A user row. The password field holds the slow hash of the user's
/// password, never the password itself.
#[derive(Debug)]
pub struct User {
    pub id: i32,
    pub uuid: u128,
    pub first_name: Option<String>,
    pub last_name: Option<String>,
    pub email: String,
    pub password: String,
    pub gender: Option<Gender>,
    pub contact: Option<String>,
    pub type_: UserType,
}

/// Copies an optional string, preserving its value.
pub(crate) fn clone_opt_string(o: &Option<String>) -> (r: Option<String>)
    ensures
        r == o,
{
    match o {
        Some(s) => Some(s.clone()),
        None => None,
    }
}

impl Clone for User {
    /// Copies the row, preserving every field.
    fn clone(&self) -> (r: User)
        ensures
            r == self,
    {
        User {
            id: self.id,
            uuid: self.uuid,
            first_name: clone_opt_string(&self.first_name),
            last_name: clone_opt_string(&self.last_name),
            email: self.email.clone(),
            password: self.password.clone(),
            gender: self.gender,
            contact: clone_opt_string(&self.contact),
            type_: self.type_,
        }
    }
}

impl User {
    /// Whether this user holds admin privileges.
    pub fn is_admin(&self) -> (r: bool)
        ensures
            r == (self.type_ is Admin),
    {
        match self.type_ {
            UserType::Admin => true,
            _ => false,
        }
    }

    /// Full name of a user: both names joined by one space, one of them
    /// alone, or nothing.
    pub fn full_name(&self) -> (r: Option<String>)
        ensures
            match (self.first_name, self.last_name) {
                (Option::None, Option::None) => r is None,
                (Option::Some(f), Option::None) => r is Some && r.unwrap()@ == f@,
                (Option::None, Option::Some(l)) => r is Some && r.unwrap()@ == l@,
                (Option::Some(f), Option::Some(l)) => r is Some && r.unwrap()@ == f@ + " "@ + l@,
            },
    {
        match (self.first_name.as_ref(), self.last_name.as_ref()) {
            (None, None) => None,
            (Some(first), None) => Some(first.clone()),
            (None, Some(last)) => Some(last.clone()),
            (Some(first), Some(last)) => {
                let mut full = first.clone();
                full.append(" ");
                full.append(last.as_str());
                Some(full)
            },
        }
    }
}

/// Matches the user row with the given id.
pub open spec fn by_id(id: i32) -> spec_fn(User) -> bool {
    |u: User| u.id == id
}

/// Matches the user row with the given uuid.
pub open spec fn by_uuid(uuid: u128) -> spec_fn(User) -> bool {
    |u: User| u.uuid == uuid
}

/// Matches the user row with the given email.
pub open spec fn by_email(email: Seq<char>) -> spec_fn(User) -> bool {
    |u: User| u.email@ == email
}

/// Whether a user matches a search query: it occurs in one of the name or
/// contact fields, or in the email compared without regard to ASCII case.
pub open spec fn spec_matches_query(u: User, q: Seq<char>) -> bool {
    ||| (u.first_name is Some && contains_sub(u.first_name.unwrap()@, q))
    ||| (u.last_name is Some && contains_sub(u.last_name.unwrap()@, q))
    ||| contains_sub_ci(u.email@, q)
    ||| (u.contact is Some && contains_sub(u.contact.unwrap()@, q))
}

/// Removing a row keeps emails pairwise distinct.
proof fn lemma_emails_distinct_remove(users: Seq<User>, at: int)
    requires
        emails_distinct(users),
        0 <= at < users.len(),
    ensures
        emails_distinct(users.remove(at)),
{
    let r = users.remove(at);
    assert forall|i: int, j: int| 0 <= i < j < r.len() implies (#[trigger] r[i]).email@ != (
        #[trigger] r[j]).email@ by {
        let si = if i < at { i } else { i + 1 };
        let sj = if j < at { j } else { j + 1 };
        assert(r[i] == users[si] && r[j] == users[sj]);
    }
}

/// Replacing a row without changing its email keeps emails distinct.
proof fn lemma_emails_distinct_update(users: Seq<User>, at: int, u2: User)
    requires
        emails_distinct(users),
        0 <= at < users.len(),
        u2.email@ == users[at].email@,
    ensures
        emails_distinct(users.update(at, u2)),
{
    let r = users.update(at, u2);
    assert forall|i: int, j: int| 0 <= i < j < r.len() implies (#[trigger] r[i]).email@ != (
        #[trigger] r[j]).email@ by {
        if i != at {
            assert(r[i] == users[i]);
        }
        if j != at {
            assert(r[j] == users[j]);
        }
    }
}

impl User {
    /// Gets the user with the given id, or reports that none exists.
    pub fn find(id: i32, store: &Store) -> (r: Result<User, Error>)
        ensures
            match r {
                Ok(u) => {
                    let at = first_idx(store.users@, by_id(id));
                    at >= 0 && u == store.users@[at]
                },
                Err(e) => e == Error::NotFound && first_idx(store.users@, by_id(id)) == -1,
            },
    {
        let n = store.users.len();
        let mut i: usize = 0;
        while i < n
            invariant
                n == store.users@.len(),
                0 <= i <= n,
                forall|k: int| 0 <= k < i ==> (#[trigger] store.users@[k]).id != id,
            decreases n - i,
        {
            if store.users[i].id == id {
                proof {
                    lemma_first_idx_at(store.users@, by_id(id), i as int);
                }
                return Ok(store.users[i].clone());
            }
            i = i + 1;
        }
        proof {
            lemma_first_idx(store.users@, by_id(id));
        }
        Err(Error::NotFound)
    }

    /// Gets the user with the given uuid, or reports that none exists.
    pub fn find_by_uuid(uuid: u128, store: &Store) -> (r: Result<User, Error>)
        ensures
            match r {
                Ok(u) => {
                    let at = first_idx(store.users@, by_uuid(uuid));
                    at >= 0 && u == store.users@[at]
                },
                Err(e) => e == Error::NotFound && first_idx(store.users@, by_uuid(uuid)) == -1,
            },
    {
        let n = store.users.len();
        let mut i: usize = 0;
        while i < n
            invariant
                n == store.users@.len(),
                0 <= i <= n,
                forall|k: int| 0 <= k < i ==> (#[trigger] store.users@[k]).uuid != uuid,
            decreases n - i,
        {
            if store.users[i].uuid == uuid {
                proof {
                    lemma_first_idx_at(store.users@, by_uuid(uuid), i as int);
                }
                return Ok(store.users[i].clone());
            }
            i = i + 1;
        }
        proof {
            lemma_first_idx(store.users@, by_uuid(uuid));
        }
        Err(Error::NotFound)
    }

    /// Gets the user with the given email, or reports that none exists.
    pub fn find_by_email(email: &str, store: &Store) -> (r: Result<User, Error>)
        ensures
            match r {
                Ok(u) => {
                    let at = first_idx(store.users@, by_email(email@));
                    at >= 0 && u == store.users@[at]
                },
                Err(e) => e == Error::NotFound && first_idx(store.users@, by_email(email@)) == -1,
            },
    {
        let n = store.users.len();
        let mut i: usize = 0;
        while i < n
            invariant
                n == store.users@.len(),
                0 <= i <= n,
                forall|k: int| 0 <= k < i ==> (#[trigger] store.users@[k]).email@ != email@,
            decreases n - i,
        {
            if str_eq(store.users[i].email.as_str(), email) {
                proof {
                    lemma_first_idx_at(store.users@, by_email(email@), i as int);
                }
                return Ok(store.users[i].clone());
            }
            i = i + 1;
        }
        proof {
            lemma_first_idx(store.users@, by_email(email@));
        }
        Err(Error::NotFound)
    }

    /// Whether any user exists at all.
    pub fn exists_any(store: &Store) -> (r: bool)
        ensures
            r == (store.users@.len() > 0),
    {
        store.users.len() > 0
    }

    /// Gets all users, or those matching the given query.
    pub fn find_all(query: Option<String>, store: &Store) -> (r: Vec<User>)
        ensures
            match query {
                Option::None => r@ == store.users@,
                Option::Some(q) => r@ == store.users@.filter(|u: User| spec_matches_query(u, q@)),
            },
    {
        let n = store.users.len();
        let mut out: Vec<User> = Vec::new();
        match query {
            None => {
                let mut i: usize = 0;
                while i < n
                    invariant
                        n == store.users@.len(),
                        0 <= i <= n,
                        out@ == store.users@.take(i as int),
                    decreases n - i,
                {
                    out.push(store.users[i].clone());
                    proof {
                        assert(out@ =~= store.users@.take(i + 1));
                    }
                    i = i + 1;
                }
                proof {
                    assert(store.users@.take(n as int) =~= store.users@);
                }
                out
            },
            Some(q) => {
                let ghost pred = |u: User| spec_matches_query(u, q@);
                let mut i: usize = 0;
                while i < n
                    invariant
                        n == store.users@.len(),
                        0 <= i <= n,
                        out@ == store.users@.take(i as int).filter(pred),
                        pred == (|u: User| spec_matches_query(u, q@)),
                    decreases n - i,
                {
                    let u = &store.users[i];
                    let hit = {
                        let by_first = match &u.first_name {
                            Some(f) => contains_str(f.as_str(), q.as_str()),
                            None => false,
                        };
                        let by_last = match &u.last_name {
                            Some(l) => contains_str(l.as_str(), q.as_str()),
                            None => false,
                        };
                        let by_contact = match &u.contact {
                            Some(c) => contains_str(c.as_str(), q.as_str()),
                            None => false,
                        };
                        by_first || by_last || by_contact || contains_str_ci(
                            u.email.as_str(),
                            q.as_str(),
                        )
                    };
                    proof {
                        assert(hit == pred(store.users@[i as int]));
                        reveal(Seq::filter);
                        assert(store.users@.take(i + 1).drop_last() =~= store.users@.take(i as int));
                        assert(store.users@.take(i + 1).last() == store.users@[i as int]);
                    }
                    if hit {
                        out.push(u.clone());
                    }
                    i = i + 1;
                }
                proof {
                    assert(store.users@.take(n as int) =~= store.users@);
                }
                out
            },
        }
    }

    /// Deletes the user with the given uuid, returning the removed row, or
    /// reports that none exists. Nothing else changes.
    pub fn delete_by_uuid(uuid: u128, store: &mut Store) -> (r: Result<User, Error>)
        requires
            old(store).wf(),
        ensures
            final(store).wf(),
            match r {
                Ok(u) => {
                    let at = first_idx(old(store).users@, by_uuid(uuid));
                    at >= 0 && u == old(store).users@[at] && final(store).users@ == old(
                        store,
                    ).users@.remove(at)
                },
                Err(e) => e == Error::NotFound && first_idx(old(store).users@, by_uuid(uuid)) == -1
                    && final(store).users@ == old(store).users@,
            },
            final(store).test_papers == old(store).test_papers,
            final(store).test_questions == old(store).test_questions,
            final(store).question_options == old(store).question_options,
            final(store).test_schedules == old(store).test_schedules,
            final(store).test_rooms == old(store).test_rooms,
            final(store).test_attempts == old(store).test_attempts,
            final(store).test_subscriptions == old(store).test_subscriptions,
            final(store).question_answers == old(store).question_answers,
            final(store).next_id == old(store).next_id,
    {
        let n = store.users.len();
        let mut i: usize = 0;
        while i < n
            invariant
                *store == *old(store),
                old(store).wf(),
                n == store.users@.len(),
                0 <= i <= n,
                forall|k: int| 0 <= k < i ==> (#[trigger] store.users@[k]).uuid != uuid,
            decreases n - i,
        {
            if store.users[i].uuid == uuid {
                proof {
                    lemma_first_idx_at(store.users@, by_uuid(uuid), i as int);
                    lemma_remove_keeps(store.users@, user_id(), old(store).next_id as int, i as int);
                    lemma_remove_keeps(
                        store.users@,
                        user_uuid(),
                        old(store).next_id as int,
                        i as int,
                    );
                    lemma_emails_distinct_remove(store.users@, i as int);
                }
                let removed = store.users[i].clone();
                store.users.remove(i);
                return Ok(removed);
            }
            i = i + 1;
        }
        proof {
            lemma_first_idx(store.users@, by_uuid(uuid));
        }
        Err(Error::NotFound)
    }
}

/// The bcrypt crate's error type, carried through opaquely and mapped to
/// this crate's own error at the boundary.
#[verifier::external_type_specification]
#[verifier::external_body]
pub struct ExBcryptError(bcrypt::BcryptError);

/// Whether a password matches a bcrypt hash; what `bcrypt::verify` returns
/// on success, a function of the two arguments alone.
pub uninterp spec fn password_verifies(password: Seq<char>, hash: Seq<char>) -> bool;

/// Whether `bcrypt::verify` fails on these arguments (a malformed hash);
/// deterministic in the two arguments alone.
pub uninterp spec fn bcrypt_verify_errs(password: Seq<char>, hash: Seq<char>) -> bool;

/// Relies on bcrypt::hash with the crate's default cost: on success the
/// result is a hash of the password that bcrypt::verify accepts for the
/// same password.
#[verifier::external_body]
fn bcrypt_hash_default(password: &str) -> (r: Result<String, bcrypt::BcryptError>)
    ensures
        r matches Ok(h) ==> password_verifies(password@, h@),
{
    bcrypt::hash(password, bcrypt::DEFAULT_COST)
}

/// Relies on bcrypt::verify: whether the call succeeds, and what it then
/// says of the password against the hash, are functions of the two
/// arguments alone.
#[verifier::external_body]
fn bcrypt_verify(password: &str, hash: &str) -> (r: Result<bool, bcrypt::BcryptError>)
    ensures
        match r {
            Ok(b) => b == password_verifies(password@, hash@) && !bcrypt_verify_errs(
                password@,
                hash@,
            ),
            Err(_) => bcrypt_verify_errs(password@, hash@),
        },
{
    bcrypt::verify(password, hash)
}

/// Checks the given password against the user's stored hash: the user
/// comes back untouched exactly when it matches, a wrong password is
/// reported as incorrect, and a hash the verifier cannot read as an
/// internal failure.
pub fn verify_user(user: User, password: &str) -> (r: Result<User, Error>)
    ensures
        match r {
            Ok(u) => u == user && password_verifies(password@, user.password@)
                && !bcrypt_verify_errs(password@, user.password@),
            Err(e) => {
                &&& (e == Error::IncorrectPassword <==> !bcrypt_verify_errs(
                    password@,
                    user.password@,
                ) && !password_verifies(password@, user.password@))
                &&& (e == Error::Internal <==> bcrypt_verify_errs(password@, user.password@))
            },
        },
        r is Ok <==> !bcrypt_verify_errs(password@, user.password@) && password_verifies(
            password@,
            user.password@,
        ),
{
    match bcrypt_verify(password, user.password.as_str()) {
        Ok(true) => Ok(user),
        Ok(false) => Err(Error::IncorrectPassword),
        Err(_) => Err(Error::Internal),
    }
}

/// Some user already holds this email address.
pub open spec fn email_taken(users: Seq<User>, email: Seq<char>) -> bool {
    first_idx(users, by_email(email)) != -1
}

/// A row ready for insertion: everything but the id and uuid, which the
/// store draws. The password field already holds the hash.
#[derive(Debug)]
pub struct NewUser {
    pub first_name: Option<String>,
    pub last_name: Option<String>,
    pub email: String,
    pub password: String,
    pub gender: Option<Gender>,
    pub contact: Option<String>,
    pub type_: UserType,
}

impl NewUser {
    /// Inserts the row. It is refused exactly when the email is already
    /// taken, or when no row id is left; otherwise the row is appended with
    /// fresh id and uuid and returned.
    pub fn save(self, store: &mut Store) -> (r: Result<User, Error>)
        requires
            old(store).wf(),
        ensures
            final(store).wf(),
            match r {
                Ok(u) => {
                    &&& !email_taken(old(store).users@, self.email@)
                    &&& old(store).ids_left() >= 1
                    &&& final(store).users@ == old(store).users@.push(u)
                    &&& u.id == old(store).next_id && u.uuid == old(store).next_id as u128
                    &&& u.first_name == self.first_name && u.last_name == self.last_name
                    &&& u.email == self.email && u.password == self.password
                    &&& u.gender == self.gender && u.contact == self.contact
                    &&& u.type_ == self.type_
                    &&& final(store).next_id == old(store).next_id + 1
                },
                Err(e) => {
                    &&& *final(store) == *old(store)
                    &&& (e == Error::NotUnique || e == Error::Internal)
                    &&& (e == Error::NotUnique <==> email_taken(old(store).users@, self.email@))
                    &&& (e == Error::Internal <==> (!email_taken(old(store).users@, self.email@)
                        && old(store).ids_left() == 0))
                },
            },
            final(store).test_papers == old(store).test_papers,
            final(store).test_questions == old(store).test_questions,
            final(store).question_options == old(store).question_options,
            final(store).test_schedules == old(store).test_schedules,
            final(store).test_rooms == old(store).test_rooms,
            final(store).test_attempts == old(store).test_attempts,
            final(store).test_subscriptions == old(store).test_subscriptions,
            final(store).question_answers == old(store).question_answers,
    {
        match User::find_by_email(self.email.as_str(), store) {
            Ok(_) => {
                proof {
                    lemma_first_idx(store.users@, by_email(self.email@));
                }
                Err(Error::NotUnique)
            },
            Err(_) => {
                if store.next_id == i32::MAX {
                    return Err(Error::Internal);
                }
                let (id, uuid) = store.fresh_ids();
                let row = User {
                    id,
                    uuid,
                    first_name: self.first_name,
                    last_name: self.last_name,
                    email: self.email,
                    password: self.password,
                    gender: self.gender,
                    contact: self.contact,
                    type_: self.type_,
                };
                let result = row.clone();
                proof {
                    lemma_push_fresh(
                        store.users@,
                        user_id(),
                        old(store).next_id as int,
                        row,
                    );
                    lemma_push_fresh(
                        store.users@,
                        user_uuid(),
                        old(store).next_id as int,
                        row,
                    );
                    lemma_first_idx(store.users@, by_email(row.email@));
                    assert forall|i: int, j: int|
                        0 <= i < j < store.users@.push(row).len() implies (
                    #[trigger] store.users@.push(row)[i]).email@ != (
                    #[trigger] store.users@.push(row)[j]).email@ by {
                        if j < store.users@.len() {
                            assert(store.users@.push(row)[i] == store.users@[i]);
                            assert(store.users@.push(row)[j] == store.users@[j]);
                        } else {
                            assert(store.users@.push(row)[i] == store.users@[i]);
                            assert(store.users@.push(row)[j] == row);
                        }
                    }
                }
                store.users.push(row);
                Ok(result)
            },
        }
    }
}

/// A type to create a new user: the email and the password to be hashed.
#[derive(Debug)]
pub struct UserForm {
    pub email: String,
    pub password: String,
}

/// What creating a user does: on success the new row joins the users
/// table, carrying the given email, a hash the given password verifies
/// against, and the admin type exactly when the store held no user yet.
/// A taken email is refused as not unique, and any refusal changes nothing.
pub open spec fn spec_user_form_outcome(
    pre: Store,
    post: Store,
    form: UserForm,
    r: Result<User, Error>,
) -> bool {
    match r {
        Ok(u) => {
            &&& post.users@ == pre.users@.push(u)
            &&& u.email@ == form.email@
            &&& password_verifies(form.password@, u.password@)
            &&& u.type_ == (if pre.users@.len() == 0 {
                UserType::Admin
            } else {
                UserType::Normal
            })
            &&& u.first_name is None && u.last_name is None
            &&& u.gender is None && u.contact is None
            &&& !email_taken(pre.users@, form.email@)
        },
        Err(e) => {
            &&& post == pre
            &&& (e == Error::NotUnique || e == Error::Internal)
            &&& (email_taken(pre.users@, form.email@) ==> e == Error::NotUnique)
            &&& (e == Error::NotUnique ==> email_taken(pre.users@, form.email@))
        },
    }
}

impl UserForm {
    /// Creates a new user. The very first user of an empty store becomes an
    /// admin; every later one is a normal user. The password is run through
    /// the slow hash; only the hash is stored.
    pub fn save(self, store: &mut Store) -> (r: Result<User, Error>)
        requires
            old(store).wf(),
        ensures
            final(store).wf(),
            spec_user_form_outcome(*old(store), *final(store), self, r),
            final(store).test_papers == old(store).test_papers,
            final(store).test_questions == old(store).test_questions,
            final(store).question_options == old(store).question_options,
            final(store).test_schedules == old(store).test_schedules,
            final(store).test_rooms == old(store).test_rooms,
            final(store).test_attempts == old(store).test_attempts,
            final(store).test_subscriptions == old(store).test_subscriptions,
            final(store).question_answers == old(store).question_answers,
    {
        let has_users = User::exists_any(store);
        let password = match bcrypt_hash_default(self.password.as_str()) {
            Ok(h) => h,
            Err(_) => {
                // Uniqueness is still reported ahead of an internal failure,
                // as the store's own checks would.
                return match User::find_by_email(self.email.as_str(), store) {
                    Ok(_) => {
                        proof {
                            lemma_first_idx(store.users@, by_email(self.email@));
                        }
                        Err(Error::NotUnique)
                    },
                    Err(_) => Err(Error::Internal),
                };
            },
        };
        let new_user = NewUser {
            first_name: None,
            last_name: None,
            email: self.email,
            password,
            gender: None,
            contact: None,
            type_: if has_users {
                UserType::Normal
            } else {
                UserType::Admin
            },
        };
        new_user.save(store)
    }
}

/// A changeset for one user row: tri-state patches for the nullable
/// columns, plain optional values for the columns that cannot be null.
pub struct UserPatch {
    pub first_name: FieldUpdate<String>,
    pub last_name: FieldUpdate<String>,
    pub email: Option<String>,
    pub password: Option<String>,
    pub gender: FieldUpdate<Gender>,
    pub contact: FieldUpdate<String>,
    pub type_: Option<UserType>,
}

/// A patch that changes no column at all.
pub open spec fn patch_is_empty(p: UserPatch) -> bool {
    &&& p.first_name is Unchanged
    &&& p.last_name is Unchanged
    &&& p.email is None
    &&& p.password is None
    &&& p.gender is Unchanged
    &&& p.contact is Unchanged
    &&& p.type_ is None
}

/// The row that applying a patch to a user yields; id and uuid never move.
pub open spec fn spec_apply_patch(u: User, p: UserPatch) -> User {
    User {
        id: u.id,
        uuid: u.uuid,
        first_name: crate::field_update::spec_apply(u.first_name, p.first_name),
        last_name: crate::field_update::spec_apply(u.last_name, p.last_name),
        email: if p.email is Some {
            p.email.unwrap()
        } else {
            u.email
        },
        password: if p.password is Some {
            p.password.unwrap()
        } else {
            u.password
        },
        gender: crate::field_update::spec_apply(u.gender, p.gender),
        contact: crate::field_update::spec_apply(u.contact, p.contact),
        type_: if p.type_ is Some {
            p.type_.unwrap()
        } else {
            u.type_
        },
    }
}

/// The patch's new email, if any, already belongs to a different user.
pub open spec fn patch_email_conflict(users: Seq<User>, at: int, p: UserPatch) -> bool {
    p.email is Some && exists|k: int|
        0 <= k < users.len() && k != at && (#[trigger] users[k]).email@ == p.email.unwrap()@
}

/// What saving a user patch does to the store and returns: an empty patch
/// is refused; then the target row must exist; then a new email must not
/// belong to anybody else; and then the patched row replaces the old one.
pub open spec fn spec_patch_outcome(
    pre: Store,
    post: Store,
    uuid: u128,
    p: UserPatch,
    r: Result<User, Error>,
) -> bool {
    let at = first_idx(pre.users@, by_uuid(uuid));
    if patch_is_empty(p) {
        r == Err::<User, Error>(Error::NullUpdate) && post == pre
    } else if at == -1 {
        r == Err::<User, Error>(Error::NotFound) && post == pre
    } else if patch_email_conflict(pre.users@, at, p) {
        r == Err::<User, Error>(Error::NotUnique) && post == pre
    } else {
        let u2 = spec_apply_patch(pre.users@[at], p);
        &&& r == Ok::<User, Error>(u2)
        &&& post.users@ == pre.users@.update(at, u2)
        &&& post.test_papers == pre.test_papers
        &&& post.test_questions == pre.test_questions
        &&& post.question_options == pre.question_options
        &&& post.test_schedules == pre.test_schedules
        &&& post.test_rooms == pre.test_rooms
        &&& post.test_attempts == pre.test_attempts
        &&& post.test_subscriptions == pre.test_subscriptions
        &&& post.question_answers == pre.question_answers
        &&& post.next_id == pre.next_id
    }
}

impl UserPatch {
    /// Whether this patch changes nothing.
    fn is_empty(&self) -> (r: bool)
        ensures
            r == patch_is_empty(*self),
    {
        self.first_name.is_unchanged() && self.last_name.is_unchanged() && self.email.is_none()
            && self.password.is_none() && self.gender.is_unchanged() && self.contact.is_unchanged()
            && self.type_.is_none()
    }

    /// Applies this patch to the user with the given uuid.
    pub fn save(self, uuid: u128, store: &mut Store) -> (r: Result<User, Error>)
        requires
            old(store).wf(),
        ensures
            final(store).wf(),
            spec_patch_outcome(*old(store), *final(store), uuid, self, r),
    {
        if self.is_empty() {
            return Err(Error::NullUpdate);
        }
        let n = store.users.len();
        let mut at: usize = 0;
        let mut found = false;
        while at < n && !found
            invariant
                *store == *old(store),
                n == store.users@.len(),
                0 <= at <= n,
                found ==> at < n && store.users@[at as int].uuid == uuid,
                !found ==> forall|k: int| 0 <= k < at ==> (#[trigger] store.users@[k]).uuid
                    != uuid,
                found ==> forall|k: int| 0 <= k < at ==> (#[trigger] store.users@[k]).uuid != uuid,
            decreases n - at + (if found { 0int } else { 1int }),
        {
            if store.users[at].uuid == uuid {
                found = true;
            } else {
                at = at + 1;
            }
        }
        if !found {
            proof {
                lemma_first_idx(store.users@, by_uuid(uuid));
            }
            return Err(Error::NotFound);
        }
        proof {
            lemma_first_idx_at(store.users@, by_uuid(uuid), at as int);
        }
        // A new email must not belong to any other user.
        if self.email.is_some() {
            let new_email = self.email.as_ref().unwrap();
            let mut k: usize = 0;
            while k < n
                invariant
                    *store == *old(store),
                    old(store).wf(),
                    !patch_is_empty(self),
                    n == store.users@.len(),
                    0 <= k <= n,
                    at < n,
                    first_idx(old(store).users@, by_uuid(uuid)) == at as int,
                    self.email == Some(*new_email),
                    forall|j: int|
                        0 <= j < k && j != at as int ==> (#[trigger] store.users@[j]).email@
                            != new_email@,
                decreases n - k,
            {
                if k != at {
                    if str_eq(store.users[k].email.as_str(), new_email.as_str()) {
                        proof {
                            assert((k as int) < store.users@.len() && k as int != at as int
                                && store.users@[k as int].email@ == self.email.unwrap()@);
                        }
                        return Err(Error::NotUnique);
                    }
                }
                k = k + 1;
            }
        }
        let row = store.users[at].clone();
        let new_row = User {
            id: row.id,
            uuid: row.uuid,
            first_name: crate::field_update::apply_field(row.first_name, self.first_name),
            last_name: crate::field_update::apply_field(row.last_name, self.last_name),
            email: match self.email {
                Some(e) => e,
                None => row.email,
            },
            password: match self.password {
                Some(h) => h,
                None => row.password,
            },
            gender: crate::field_update::apply_field(row.gender, self.gender),
            contact: crate::field_update::apply_field(row.contact, self.contact),
            type_: match self.type_ {
                Some(t) => t,
                None => row.type_,
            },
        };
        proof {
            lemma_update_keeps(
                store.users@,
                user_id(),
                old(store).next_id as int,
                at as int,
                new_row,
            );
            lemma_update_keeps(
                store.users@,
                user_uuid(),
                old(store).next_id as int,
                at as int,
                new_row,
            );
            let us = store.users@;
            let r2 = us.update(at as int, new_row);
            assert forall|i: int, j: int| 0 <= i < j < r2.len() implies (#[trigger] r2[i]).email@
                != (#[trigger] r2[j]).email@ by {
                if i != at as int {
                    assert(r2[i] == us[i]);
                }
                if j != at as int {
                    assert(r2[j] == us[j]);
                }
            }
        }
        let result = new_row.clone();
        store.users.set(at, new_row);
        Ok(result)
    }
}

/// A type to update the basic information of a user: each nullable column
/// comes as an optional value beside an optional explicit null flag.
pub struct UserInfoUpdate {
    pub first_name: Option<String>,
    pub is_first_name_null: Option<bool>,
    pub last_name: Option<String>,
    pub is_last_name_null: Option<bool>,
    pub gender: Option<Gender>,
    pub is_gender_null: Option<bool>,
    pub contact: Option<String>,
    pub is_contact_null: Option<bool>,
}

/// The patch that an information update amounts to.
pub open spec fn spec_info_patch(upd: UserInfoUpdate) -> UserPatch {
    UserPatch {
        first_name: crate::field_update::spec_join(upd.first_name, upd.is_first_name_null),
        last_name: crate::field_update::spec_join(upd.last_name, upd.is_last_name_null),
        email: None,
        password: None,
        gender: crate::field_update::spec_join(upd.gender, upd.is_gender_null),
        contact: crate::field_update::spec_join(upd.contact, upd.is_contact_null),
        type_: None,
    }
}

impl UserInfoUpdate {
    /// Updates the named profile columns of the user with the given uuid,
    /// joining each value with its null flag first.
    pub fn save(self, id: u128, store: &mut Store) -> (r: Result<User, Error>)
        requires
            old(store).wf(),
        ensures
            final(store).wf(),
            spec_patch_outcome(*old(store), *final(store), id, spec_info_patch(self), r),
    {
        let user_patch = UserPatch {
            first_name: field_update::join(self.first_name, self.is_first_name_null),
            last_name: field_update::join(self.last_name, self.is_last_name_null),
            email: None,
            password: None,
            gender: field_update::join(self.gender, self.is_gender_null),
            contact: field_update::join(self.contact, self.is_contact_null),
            type_: None,
        };
        user_patch.save(id, store)
    }
}

/// No user other than the one at `at` is an admin.
pub open spec fn sole_admin(users: Seq<User>, at: int) -> bool {
    forall|k: int| 0 <= k < users.len() && k != at ==> !((#[trigger] users[k]).type_ is Admin)
}

/// The search parameters of a user listing request.
pub struct UserSearchQuery {
    pub query: Option<String>,
}

/// A type to update the user type for a user.
pub struct UserTypeUpdate {
    pub id: u128,
    pub type_: Option<UserType>,
}

/// What changing a user's type does: demoting the sole remaining admin is
/// refused outright with nothing written; otherwise the change behaves as
/// a patch of the type column alone.
pub open spec fn spec_user_type_outcome(
    pre: Store,
    post: Store,
    upd: UserTypeUpdate,
    r: Result<User, Error>,
) -> bool {
    let at = first_idx(pre.users@, by_uuid(upd.id));
    let p = UserPatch {
        first_name: FieldUpdate::Unchanged,
        last_name: FieldUpdate::Unchanged,
        email: None,
        password: None,
        gender: FieldUpdate::Unchanged,
        contact: FieldUpdate::Unchanged,
        type_: upd.type_,
    };
    if upd.type_ == Some(UserType::Normal) && at >= 0 && pre.users@[at].type_ is Admin
        && sole_admin(pre.users@, at) {
        r == Err::<User, Error>(Error::LastAdmin) && post == pre
    } else {
        spec_patch_outcome(pre, post, upd.id, p, r)
    }
}

impl UserTypeUpdate {
    /// Changes the type of the user named by `self.id`. Demoting the sole
    /// remaining admin is refused outright, before anything is written.
    pub fn save(self, store: &mut Store) -> (r: Result<User, Error>)
        requires
            old(store).wf(),
        ensures
            final(store).wf(),
            spec_user_type_outcome(*old(store), *final(store), self, r),
    {
        let demoting = match self.type_ {
            Some(UserType::Normal) => true,
            _ => false,
        };
        if demoting {
            let n = store.users.len();
            let mut at: usize = 0;
            let mut found = false;
            while at < n && !found
                invariant
                    *store == *old(store),
                    n == store.users@.len(),
                    0 <= at <= n,
                    found ==> at < n && store.users@[at as int].uuid == self.id,
                    !found ==> forall|k: int| 0 <= k < at ==> (#[trigger] store.users@[k]).uuid
                        != self.id,
                    found ==> forall|k: int| 0 <= k < at ==> (#[trigger] store.users@[k]).uuid
                        != self.id,
                decreases n - at + (if found { 0int } else { 1int }),
            {
                if store.users[at].uuid == self.id {
                    found = true;
                } else {
                    at = at + 1;
                }
            }
            proof {
                if found {
                    lemma_first_idx_at(store.users@, by_uuid(self.id), at as int);
                } else {
                    lemma_first_idx(store.users@, by_uuid(self.id));
                }
            }
            if found {
                if store.users[at].is_admin() {
                    let mut k: usize = 0;
                    let mut other_admin = false;
                    while k < n
                        invariant
                            *store == *old(store),
                            n == store.users@.len(),
                            0 <= k <= n,
                            at < n,
                            other_admin ==> exists|j: int|
                                0 <= j < n && j != at as int && (#[trigger] store.users@[j]).type_
                                    is Admin,
                            !other_admin ==> forall|j: int|
                                0 <= j < k && j != at as int ==> !((
                                #[trigger] store.users@[j]).type_ is Admin),
                        decreases n - k,
                    {
                        if k != at {
                            if store.users[k].is_admin() {
                                other_admin = true;
                            }
                        }
                        k = k + 1;
                    }
                    if !other_admin {
                        return Err(Error::LastAdmin);
                    }
                }
            }
        }
        let user_patch = UserPatch {
            first_name: FieldUpdate::Unchanged,
            last_name: FieldUpdate::Unchanged,
            email: None,
            password: None,
            gender: FieldUpdate::Unchanged,
            contact: FieldUpdate::Unchanged,
            type_: self.type_,
        };
        user_patch.save(self.id, store)
    }
}

/// A type to update the credentials of a user: a new email or a new
/// password (to be hashed), gated on the current password.
pub struct UserCredentialsUpdate {
    pub email: Option<String>,
    pub new_password: Option<String>,
    pub password: String,
}

/// What updating a user's credentials does. The user named by uuid must
/// exist and the given current password must verify; on success the email
/// and password hash move as asked, and the cache entry keyed by the
/// superseded credential is gone once the call returns. Any refusal leaves
/// both the store and the cache untouched.
pub open spec fn spec_credentials_outcome(
    pre: Store,
    post: Store,
    pre_cache: AuthCache,
    post_cache: AuthCache,
    id: u128,
    upd: UserCredentialsUpdate,
    r: Result<User, Error>,
) -> bool {
    let at = first_idx(pre.users@, by_uuid(id));
    let target = pre.users@[at];
    let verify_fails = bcrypt_verify_errs(upd.password@, target.password@);
    let verified = password_verifies(upd.password@, target.password@);
    let email_conflict = upd.email is Some && (exists|k: int|
        0 <= k < pre.users@.len() && k != at && (#[trigger] pre.users@[k]).email@
            == upd.email.unwrap()@);
    &&& (at == -1 <==> r == Err::<User, Error>(Error::NotFound))
    &&& (r is Err ==> post == pre && post_cache == pre_cache)
    &&& (at >= 0 && verify_fails ==> r == Err::<User, Error>(Error::Internal))
    &&& (r == Err::<User, Error>(Error::Internal) ==> at >= 0 && (verify_fails
        || upd.new_password is Some))
    &&& (r == Err::<User, Error>(Error::IncorrectPassword) <==> at >= 0 && !verify_fails
        && !verified)
    &&& (r == Err::<User, Error>(Error::NullUpdate) <==> at >= 0 && !verify_fails && verified
        && upd.email is None && upd.new_password is None)
    &&& (r == Err::<User, Error>(Error::NotUnique) ==> email_conflict)
    &&& (at >= 0 && !verify_fails && verified && upd.new_password is None && upd.email is Some
        ==> (if email_conflict {
        r == Err::<User, Error>(Error::NotUnique)
    } else {
        r is Ok
    }))
    &&& (r matches Ok(u2) ==> {
        let okey = (target.email@, upd.password@);
        let cat = first_idx(pre_cache.entries@, by_key(okey));
        &&& at >= 0
        &&& password_verifies(upd.password@, target.password@)
        &&& !(upd.email is None && upd.new_password is None)
        &&& post.users@ == pre.users@.update(at, u2)
        &&& u2.id == target.id && u2.uuid == target.uuid
        &&& u2.first_name == target.first_name && u2.last_name == target.last_name
        &&& u2.gender == target.gender && u2.contact == target.contact
        &&& u2.type_ == target.type_
        &&& u2.email@ == (if upd.email is Some {
            upd.email.unwrap()@
        } else {
            target.email@
        })
        &&& (upd.new_password is Some ==> password_verifies(
            upd.new_password.unwrap()@,
            u2.password@,
        ))
        &&& (upd.new_password is None ==> u2.password == target.password)
        &&& post_cache.entries@ == (if cat >= 0 {
            pre_cache.entries@.remove(cat)
        } else {
            pre_cache.entries@
        })
        &&& first_idx(post_cache.entries@, by_key(okey)) == -1
    })
}

/// After a successful credentials update, the cache holds nothing under
/// the superseded credential: the old email and old password pair cannot
/// authenticate from the cache at any later moment.
pub proof fn lemma_superseded_credential_not_cached(
    pre: Store,
    post: Store,
    pre_cache: AuthCache,
    post_cache: AuthCache,
    id: u128,
    upd: UserCredentialsUpdate,
    u2: User,
    cred: BasicUser,
    t: u64,
)
    requires
        spec_credentials_outcome(pre, post, pre_cache, post_cache, id, upd, Ok(u2)),
        cred.username@ == pre.users@[first_idx(pre.users@, by_uuid(id))].email@,
        cred.password@ == upd.password@,
    ensures
        post_cache.spec_get(cred, t) is None,
{
}

impl UserCredentialsUpdate {
    /// Hashes the new password, when one was given.
    fn hashed_password(&self) -> (r: Result<Option<String>, Error>)
        ensures
            match r {
                Ok(h) => (h is Some <==> self.new_password is Some) && (self.new_password is Some
                    ==> password_verifies(self.new_password.unwrap()@, h.unwrap()@)),
                Err(e) => e == Error::Internal && self.new_password is Some,
            },
    {
        if let Some(new_password) = &self.new_password {
            match bcrypt_hash_default(new_password.as_str()) {
                Ok(new_hash) => Ok(Some(new_hash)),
                Err(_) => Err(Error::Internal),
            }
        } else {
            Ok(None)
        }
    }

    /// Updates the user's email or password hash, gated on the current
    /// password. On success, the cache entry keyed by the superseded
    /// credential is removed, after the store update has been applied, so
    /// the old credential cannot authenticate from the cache afterwards.
    pub fn save(self, id: u128, store: &mut Store, cache: &mut AuthCache) -> (r: Result<
        User,
        Error,
    >)
        requires
            old(store).wf(),
            old(cache).wf(),
        ensures
            final(store).wf(),
            final(cache).wf(),
            spec_credentials_outcome(
                *old(store),
                *final(store),
                *old(cache),
                *final(cache),
                id,
                self,
                r,
            ),
            final(store).test_papers == old(store).test_papers,
            final(store).test_questions == old(store).test_questions,
            final(store).question_options == old(store).question_options,
            final(store).test_schedules == old(store).test_schedules,
            final(store).test_rooms == old(store).test_rooms,
            final(store).test_attempts == old(store).test_attempts,
            final(store).test_subscriptions == old(store).test_subscriptions,
            final(store).question_answers == old(store).question_answers,
            final(store).next_id == old(store).next_id,
    {
        // Verify the current password regardless of what the update holds.
        let user = match User::find_by_uuid(id, store) {
            Ok(u) => u,
            Err(_) => {
                return Err(Error::NotFound);
            },
        };
        let user = match verify_user(user, self.password.as_str()) {
            Ok(u) => u,
            Err(e) => {
                return Err(e);
            },
        };

        let password_hash = match self.hashed_password() {
            Ok(h) => h,
            Err(e) => {
                return Err(e);
            },
        };
        let old_email = user.email.clone();
        let user_patch = UserPatch {
            first_name: FieldUpdate::Unchanged,
            last_name: FieldUpdate::Unchanged,
            email: self.email,
            password: password_hash,
            gender: FieldUpdate::Unchanged,
            contact: FieldUpdate::Unchanged,
            type_: None,
        };
        let saved = match user_patch.save(id, store) {
            Ok(u) => u,
            Err(e) => {
                return Err(e);
            },
        };

        // Remove the superseded credential from the auth cache, after the
        // update is committed: the old email/password pair must not
        // authenticate from the cache any more.
        let basic_user = BasicUser { username: old_email, password: self.password };
        cache.remove(&basic_user);
        Ok(saved)
    }
}

} // verus!
