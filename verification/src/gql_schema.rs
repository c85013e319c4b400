use vstd::prelude::*;

use crate::auth::Context;
use crate::cache::AuthCache;
use crate::errors::Error;
use crate::store::Store;
use crate::table::first_idx;
use crate::test_paper::{
    by_p_uuid, spec_paper_form_outcome, spec_paper_update_outcome, TestPaper, TestPaperForm,
    TestPaperUpdate,
};
use crate::test_room::{by_room_uuid_user, StartTest, TestRoom, TestRoomPatch};
use crate::test_schedule::{by_s_uuid, TestSchedule, TestScheduleForm, TestScheduleUpdate};
use crate::user::{
    by_uuid, spec_credentials_outcome, spec_info_patch, spec_matches_query, spec_patch_outcome,
    spec_user_form_outcome, spec_user_type_outcome, User, UserCredentialsUpdate, UserForm,
    UserInfoUpdate, UserTypeUpdate,
};

verus! {

/// Root query type: every read the API offers, each gated by the policy
/// its field declares.
pub struct Query;

impl Query {
    /// Gets the current authenticated user.
    pub fn me(ctx: &Context) -> (r: Result<User, Error>)
        ensures
            match r {
                Ok(u) => ctx.user is Some && u == ctx.user.unwrap(),
                Err(e) => e == Error::Unauthorized && ctx.user is None,
            },
    {
        match ctx.auth_user() {
            Ok(u) => Ok(u.clone()),
            Err(e) => Err(e),
        }
    }

    /// Gets all the users, or those matching the given query. Admins only.
    pub fn users(ctx: &Context, query: Option<String>, store: &Store) -> (r: Result<
        Vec<User>,
        Error,
    >)
        ensures
            match r {
                Ok(users) => ctx.user is Some && ctx.user.unwrap().type_ is Admin && (match query {
                    Option::None => users@ == store.users@,
                    Option::Some(q) => users@ == store.users@.filter(
                        |u: User| spec_matches_query(u, q@),
                    ),
                }),
                Err(e) => e == Error::Unauthorized && (ctx.user is None || !(
                ctx.user.unwrap().type_ is Admin)),
            },
    {
        match ctx.admin_only() {
            Ok(_) => Ok(User::find_all(query, store)),
            Err(e) => Err(e),
        }
    }

    /// Gets a user with the given id. Admins only.
    pub fn user(ctx: &Context, id: u128, store: &Store) -> (r: Result<User, Error>)
        ensures
            match r {
                Ok(u) => {
                    let at = first_idx(store.users@, by_uuid(id));
                    &&& ctx.user is Some && ctx.user.unwrap().type_ is Admin
                    &&& at >= 0 && u == store.users@[at]
                },
                Err(e) => (e == Error::Unauthorized && (ctx.user is None || !(
                ctx.user.unwrap().type_ is Admin))) || (e == Error::NotFound && first_idx(
                    store.users@,
                    by_uuid(id),
                ) == -1),
            },
    {
        match ctx.admin_only() {
            Ok(_) => User::find_by_uuid(id, store),
            Err(e) => Err(e),
        }
    }

    /// Gets all the test papers.
    pub fn test_papers(store: &Store) -> (r: Result<Vec<TestPaper>, Error>)
        ensures
            r matches Ok(papers) && papers@ == store.test_papers@,
    {
        Ok(TestPaper::find_all(store))
    }

    /// Gets a test paper with the given id.
    pub fn test_paper(id: u128, store: &Store) -> (r: Result<TestPaper, Error>)
        ensures
            match r {
                Ok(p) => {
                    let at = first_idx(store.test_papers@, by_p_uuid(id));
                    at >= 0 && p == store.test_papers@[at]
                },
                Err(e) => e == Error::NotFound && first_idx(store.test_papers@, by_p_uuid(id))
                    == -1,
            },
    {
        TestPaper::find_by_uuid(id, store)
    }
}

/// Root mutation type: every write the API offers, each gated by the
/// policy its field declares, checked before anything changes.
pub struct Mutation;

impl Mutation {
    /// Creates a new user. Open to anonymous requests: the first user of
    /// an empty store becomes the admin.
    pub fn create_user(user: UserForm, store: &mut Store) -> (r: Result<User, Error>)
        requires
            old(store).wf(),
        ensures
            final(store).wf(),
            spec_user_form_outcome(*old(store), *final(store), user, r),
    {
        user.save(store)
    }

    /// Updates the authenticated user with general information.
    pub fn update_me(ctx: &Context, user: UserInfoUpdate, store: &mut Store) -> (r: Result<
        User,
        Error,
    >)
        requires
            old(store).wf(),
        ensures
            final(store).wf(),
            ctx.user is None ==> r == Err::<User, Error>(Error::Unauthorized) && *final(store)
                == *old(store),
            ctx.user is Some ==> spec_patch_outcome(
                *old(store),
                *final(store),
                ctx.user.unwrap().uuid,
                spec_info_patch(user),
                r,
            ),
    {
        let auth = match ctx.auth_user() {
            Ok(u) => u,
            Err(e) => {
                return Err(e);
            },
        };
        let uuid = auth.uuid;
        user.save(uuid, store)
    }

    /// Updates the authenticated user with new credentials, evicting the
    /// superseded credential from the auth cache after the store update.
    pub fn update_my_credentials(
        ctx: &Context,
        user: UserCredentialsUpdate,
        store: &mut Store,
        cache: &mut AuthCache,
    ) -> (r: Result<User, Error>)
        requires
            old(store).wf(),
            old(cache).wf(),
        ensures
            final(store).wf(),
            final(cache).wf(),
            ctx.user is None ==> r == Err::<User, Error>(Error::Unauthorized) && *final(store)
                == *old(store) && *final(cache) == *old(cache),
            ctx.user is Some ==> spec_credentials_outcome(
                *old(store),
                *final(store),
                *old(cache),
                *final(cache),
                ctx.user.unwrap().uuid,
                user,
                r,
            ),
    {
        let auth = match ctx.auth_user() {
            Ok(u) => u,
            Err(e) => {
                return Err(e);
            },
        };
        let uuid = auth.uuid;
        user.save(uuid, store, cache)
    }

    /// Changes the user type for a user. Admins only; demoting the sole
    /// remaining admin is refused.
    pub fn update_user_type(ctx: &Context, user_type: UserTypeUpdate, store: &mut Store) -> (r:
        Result<User, Error>)
        requires
            old(store).wf(),
        ensures
            final(store).wf(),
            (ctx.user is None || !(ctx.user.unwrap().type_ is Admin)) ==> r == Err::<User, Error>(
                Error::Unauthorized,
            ) && *final(store) == *old(store),
            (ctx.user is Some && ctx.user.unwrap().type_ is Admin) ==> spec_user_type_outcome(
                *old(store),
                *final(store),
                user_type,
                r,
            ),
    {
        match ctx.admin_only() {
            Ok(_) => user_type.save(store),
            Err(e) => Err(e),
        }
    }

    /// Deletes the authenticated user.
    pub fn delete_me(ctx: &Context, store: &mut Store) -> (r: Result<User, Error>)
        requires
            old(store).wf(),
        ensures
            final(store).wf(),
            ctx.user is None ==> r == Err::<User, Error>(Error::Unauthorized) && *final(store)
                == *old(store),
            ctx.user is Some ==> ({
                let at = first_idx(old(store).users@, by_uuid(ctx.user.unwrap().uuid));
                match r {
                    Ok(u) => at >= 0 && u == old(store).users@[at] && final(store).users@ == old(store).users@.remove(at),
                    Err(e) => e == Error::NotFound && at == -1 && final(store).users@ == old(store).users@,
                }
            }),
    {
        let auth = match ctx.auth_user() {
            Ok(u) => u,
            Err(e) => {
                return Err(e);
            },
        };
        let uuid = auth.uuid;
        User::delete_by_uuid(uuid, store)
    }

    /// Creates a new test paper with its questions and options, as one
    /// transaction. Admins only.
    pub fn create_test_paper(ctx: &Context, test_paper: TestPaperForm, store: &mut Store) -> (r:
        Result<TestPaper, Error>)
        requires
            old(store).wf(),
        ensures
            final(store).wf(),
            (ctx.user is None || !(ctx.user.unwrap().type_ is Admin)) ==> r == Err::<
                TestPaper,
                Error,
            >(Error::Unauthorized) && *final(store) == *old(store),
            (ctx.user is Some && ctx.user.unwrap().type_ is Admin) ==> spec_paper_form_outcome(
                *old(store),
                *final(store),
                test_paper,
                r,
            ),
    {
        match ctx.admin_only() {
            Ok(_) => test_paper.save(store),
            Err(e) => Err(e),
        }
    }

    /// Updates a test paper and its questions, as one transaction. Admins
    /// only.
    pub fn update_test_paper(ctx: &Context, test_paper: TestPaperUpdate, store: &mut Store) -> (r:
        Result<TestPaper, Error>)
        requires
            old(store).wf(),
        ensures
            final(store).wf(),
            (ctx.user is None || !(ctx.user.unwrap().type_ is Admin)) ==> r == Err::<
                TestPaper,
                Error,
            >(Error::Unauthorized) && *final(store) == *old(store),
            (ctx.user is Some && ctx.user.unwrap().type_ is Admin) ==> spec_paper_update_outcome(
                *old(store),
                *final(store),
                test_paper,
                r,
            ),
    {
        match ctx.admin_only() {
            Ok(_) => test_paper.save(store),
            Err(e) => Err(e),
        }
    }

    /// Deletes a test paper with the given id. Admins only.
    pub fn delete_test_paper(ctx: &Context, id: u128, store: &mut Store) -> (r: Result<
        TestPaper,
        Error,
    >)
        requires
            old(store).wf(),
        ensures
            final(store).wf(),
            (ctx.user is None || !(ctx.user.unwrap().type_ is Admin)) ==> r == Err::<
                TestPaper,
                Error,
            >(Error::Unauthorized) && *final(store) == *old(store),
            (ctx.user is Some && ctx.user.unwrap().type_ is Admin) ==> ({
                let at = first_idx(old(store).test_papers@, by_p_uuid(id));
                match r {
                    Ok(p) => at >= 0 && p == old(store).test_papers@[at] && final(store).test_papers@ == old(store).test_papers@.remove(at),
                    Err(e) => e == Error::NotFound && at == -1 && final(store).test_papers@ == old(store).test_papers@,
                }
            }),
    {
        match ctx.admin_only() {
            Ok(_) => TestPaper::delete_by_uuid(id, store),
            Err(e) => Err(e),
        }
    }

    /// Creates a new test schedule. Admins only.
    pub fn create_test_schedule(ctx: &Context, schedule: TestScheduleForm, store: &mut Store) -> (r:
        Result<TestSchedule, Error>)
        requires
            old(store).wf(),
        ensures
            final(store).wf(),
            (ctx.user is None || !(ctx.user.unwrap().type_ is Admin)) ==> r == Err::<
                TestSchedule,
                Error,
            >(Error::Unauthorized) && *final(store) == *old(store),
            (ctx.user is Some && ctx.user.unwrap().type_ is Admin) ==> ({
                let at = first_idx(old(store).test_papers@, by_p_uuid(schedule.test_paper_id));
                match r {
                    Ok(s) => {
                        &&& at >= 0 && old(store).ids_left() >= 1
                        &&& s.test_paper_id == old(store).test_papers@[at].id
                        &&& s.time == schedule.time && s.duration == schedule.duration
                        &&& final(store).test_schedules@ == old(store).test_schedules@.push(s)
                    },
                    Err(e) => {
                        &&& *final(store) == *old(store)
                        &&& (e == Error::NotFound || e == Error::Internal)
                        &&& (e == Error::NotFound <==> at == -1)
                        &&& (e == Error::Internal <==> at >= 0 && old(store).ids_left() == 0)
                    },
                }
            }),
    {
        match ctx.admin_only() {
            Ok(_) => schedule.save(store),
            Err(e) => Err(e),
        }
    }

    /// Updates a test schedule. Admins only.
    pub fn update_test_schedule(
        ctx: &Context,
        schedule: TestScheduleUpdate,
        store: &mut Store,
    ) -> (r: Result<TestSchedule, Error>)
        requires
            old(store).wf(),
        ensures
            final(store).wf(),
            (ctx.user is None || !(ctx.user.unwrap().type_ is Admin)) ==> r == Err::<
                TestSchedule,
                Error,
            >(Error::Unauthorized) && *final(store) == *old(store),
            (ctx.user is Some && ctx.user.unwrap().type_ is Admin) ==> ({
                let at = first_idx(old(store).test_schedules@, by_s_uuid(schedule.id));
                if schedule.time is None && schedule.duration is None {
                    r == Err::<TestSchedule, Error>(Error::NullUpdate) && *final(store) == *old(store)
                } else if at == -1 {
                    r == Err::<TestSchedule, Error>(Error::NotFound) && *final(store) == *old(store)
                } else {
                    r matches Ok(s1) && final(store).test_schedules@ == old(store).test_schedules@.update(at, s1) && s1.time == (if schedule.time is Some {
                        schedule.time.unwrap()
                    } else {
                        old(store).test_schedules@[at].time
                    }) && s1.duration == (if schedule.duration is Some {
                        schedule.duration.unwrap()
                    } else {
                        old(store).test_schedules@[at].duration
                    })
                }
            }),
    {
        match ctx.admin_only() {
            Ok(_) => schedule.save(store),
            Err(e) => Err(e),
        }
    }

    /// Deletes a test schedule with the given id. Admins only.
    pub fn delete_test_schedule(ctx: &Context, id: u128, store: &mut Store) -> (r: Result<
        TestSchedule,
        Error,
    >)
        requires
            old(store).wf(),
        ensures
            final(store).wf(),
            (ctx.user is None || !(ctx.user.unwrap().type_ is Admin)) ==> r == Err::<
                TestSchedule,
                Error,
            >(Error::Unauthorized) && *final(store) == *old(store),
            (ctx.user is Some && ctx.user.unwrap().type_ is Admin) ==> ({
                let at = first_idx(old(store).test_schedules@, by_s_uuid(id));
                match r {
                    Ok(s) => at >= 0 && s == old(store).test_schedules@[at] && final(store).test_schedules@ == old(store).test_schedules@.remove(at),
                    Err(e) => e == Error::NotFound && at == -1 && final(store).test_schedules@
                        == old(store).test_schedules@,
                }
            }),
    {
        match ctx.admin_only() {
            Ok(_) => TestSchedule::delete_by_uuid(id, store),
            Err(e) => Err(e),
        }
    }

    /// Starts the test for the authenticated user at `now`.
    pub fn start_test(ctx: &Context, test: StartTest, now: i64, store: &mut Store) -> (r: Result<
        TestRoom,
        Error,
    >)
        requires
            old(store).wf(),
        ensures
            final(store).wf(),
            ctx.user is None ==> r == Err::<TestRoom, Error>(Error::Unauthorized) && *final(store)
                == *old(store),
            ctx.user is Some ==> ({
                let pat = first_idx(old(store).test_papers@, by_p_uuid(test.test_paper_id));
                let sat = first_idx(old(store).test_schedules@, by_s_uuid(test.test_schedule_id));
                match r {
                    Ok(t) => {
                        &&& pat >= 0 && sat >= 0 && old(store).ids_left() >= 1
                        &&& t.user_id == ctx.user.unwrap().id
                        &&& t.test_paper_id == old(store).test_papers@[pat].id
                        &&& t.test_schedule_id == old(store).test_schedules@[sat].id
                        &&& t.start_time == now
                        &&& t.finish_time is None && t.has_withdrawn is None
                        &&& final(store).test_rooms@ == old(store).test_rooms@.push(t)
                    },
                    Err(e) => {
                        &&& *final(store) == *old(store)
                        &&& (e == Error::NotFound <==> pat == -1 || sat == -1)
                        &&& (e == Error::Internal <==> pat >= 0 && sat >= 0 && old(store).ids_left() == 0)
                    },
                }
            }),
    {
        let user = match ctx.auth_user() {
            Ok(u) => u,
            Err(e) => {
                return Err(e);
            },
        };
        let user_id = user.id;
        test.save(user_id, now, store)
    }

    /// Leaves the test in between for the authenticated user: the room is
    /// marked finished at `now` and withdrawn.
    pub fn leave_test(ctx: &Context, test_room_id: u128, now: i64, store: &mut Store) -> (r: Result<
        TestRoom,
        Error,
    >)
        requires
            old(store).wf(),
        ensures
            final(store).wf(),
            ctx.user is None ==> r == Err::<TestRoom, Error>(Error::Unauthorized) && *final(store)
                == *old(store),
            ctx.user is Some ==> ({
                let at = first_idx(
                    old(store).test_rooms@,
                    by_room_uuid_user(test_room_id, ctx.user.unwrap().id),
                );
                match r {
                    Ok(t1) => at >= 0 && t1.finish_time == Some(now) && t1.has_withdrawn == Some(
                        true,
                    ) && final(store).test_rooms@ == old(store).test_rooms@.update(at, t1),
                    Err(e) => e == Error::NotFound && at == -1 && *final(store) == *old(store),
                }
            }),
    {
        let user = match ctx.auth_user() {
            Ok(u) => u,
            Err(e) => {
                return Err(e);
            },
        };
        let user_id = user.id;
        let r = TestRoomPatch::leave(now).save(test_room_id, user_id, store);
        proof {
            crate::table::lemma_first_idx(
                old(store).test_rooms@,
                by_room_uuid_user(test_room_id, user_id),
            );
        }
        r
    }

    /// Finishes the test for the authenticated user: the room is marked
    /// finished at `now`.
    pub fn finish_test(ctx: &Context, test_room_id: u128, now: i64, store: &mut Store) -> (r:
        Result<TestRoom, Error>)
        requires
            old(store).wf(),
        ensures
            final(store).wf(),
            ctx.user is None ==> r == Err::<TestRoom, Error>(Error::Unauthorized) && *final(store)
                == *old(store),
            ctx.user is Some ==> ({
                let at = first_idx(
                    old(store).test_rooms@,
                    by_room_uuid_user(test_room_id, ctx.user.unwrap().id),
                );
                match r {
                    Ok(t1) => at >= 0 && t1.finish_time == Some(now) && t1.has_withdrawn == old(store).test_rooms@[at].has_withdrawn && final(store).test_rooms@ == old(store).test_rooms@.update(at, t1),
                    Err(e) => e == Error::NotFound && at == -1 && *final(store) == *old(store),
                }
            }),
    {
        let user = match ctx.auth_user() {
            Ok(u) => u,
            Err(e) => {
                return Err(e);
            },
        };
        let user_id = user.id;
        let r = TestRoomPatch::finish(now).save(test_room_id, user_id, store);
        proof {
            crate::table::lemma_first_idx(
                old(store).test_rooms@,
                by_room_uuid_user(test_room_id, user_id),
            );
        }
        r
    }
}

} // verus!
