use vstd::prelude::*;

use crate::errors::Error;
use crate::store::{attempt_id, attempt_uuid, Store};
use crate::table::{
    first_idx, lemma_above_update, lemma_first_idx, lemma_first_idx_at, lemma_push_fresh,
    lemma_update_keeps,
};
use crate::test_paper::by_p_uuid;
use crate::test_schedule::by_s_uuid;

verus! {

/// A row representing a test attempt by a user. Times are seconds since
/// the epoch.
#[derive(Clone, Copy, Debug)]
pub struct TestAttempt {
    pub id: i32,
    pub uuid: u128,
    pub user_id: i32,
    pub test_paper_id: i32,
    pub test_schedule_id: i32,
    pub start_time: i64,
    pub finish_time: Option<i64>,
    pub has_withdrawn: Option<bool>,
}

/// Matches the attempt rows of one user.
pub open spec fn by_att_user(user_id: i32) -> spec_fn(TestAttempt) -> bool {
    |t: TestAttempt| t.user_id == user_id
}

/// Matches the attempt row with the given uuid belonging to the given
/// user.
pub open spec fn by_att_uuid_user(uuid: u128, user_id: i32) -> spec_fn(TestAttempt) -> bool {
    |t: TestAttempt| t.uuid == uuid && t.user_id == user_id
}

impl TestAttempt {
    /// Gets the attempt with the given uuid belonging to the given user,
    /// or reports that none exists.
    pub fn find_by_uuid_for_user(uuid: u128, user_id: i32, store: &Store) -> (r: Result<
        TestAttempt,
        Error,
    >)
        ensures
            match r {
                Ok(t) => {
                    let at = first_idx(store.test_attempts@, by_att_uuid_user(uuid, user_id));
                    at >= 0 && t == store.test_attempts@[at]
                },
                Err(e) => e == Error::NotFound && first_idx(
                    store.test_attempts@,
                    by_att_uuid_user(uuid, user_id),
                ) == -1,
            },
    {
        let n = store.test_attempts.len();
        let mut i: usize = 0;
        while i < n
            invariant
                n == store.test_attempts@.len(),
                0 <= i <= n,
                forall|k: int|
                    0 <= k < i ==> !((#[trigger] store.test_attempts@[k]).uuid == uuid
                        && store.test_attempts@[k].user_id == user_id),
            decreases n - i,
        {
            let t = &store.test_attempts[i];
            if t.uuid == uuid && t.user_id == user_id {
                proof {
                    lemma_first_idx_at(
                        store.test_attempts@,
                        by_att_uuid_user(uuid, user_id),
                        i as int,
                    );
                }
                return Ok(store.test_attempts[i]);
            }
            i = i + 1;
        }
        proof {
            lemma_first_idx(store.test_attempts@, by_att_uuid_user(uuid, user_id));
        }
        Err(Error::NotFound)
    }

    /// Gets all attempts of one user, in insertion order.
    pub fn find_for_user(user_id: i32, store: &Store) -> (r: Vec<TestAttempt>)
        ensures
            r@ == store.test_attempts@.filter(by_att_user(user_id)),
    {
        let n = store.test_attempts.len();
        let mut out: Vec<TestAttempt> = Vec::new();
        let mut i: usize = 0;
        while i < n
            invariant
                n == store.test_attempts@.len(),
                0 <= i <= n,
                out@ == store.test_attempts@.take(i as int).filter(by_att_user(user_id)),
            decreases n - i,
        {
            proof {
                reveal(Seq::filter);
                assert(store.test_attempts@.take(i + 1).drop_last() =~= store.test_attempts@.take(
                    i as int,
                ));
                assert(store.test_attempts@.take(i + 1).last() == store.test_attempts@[i as int]);
            }
            if store.test_attempts[i].user_id == user_id {
                out.push(store.test_attempts[i]);
            }
            i = i + 1;
        }
        proof {
            assert(store.test_attempts@.take(n as int) =~= store.test_attempts@);
        }
        out
    }
}

/// A patch for a test attempt: an optional finish time and an optional
/// withdrawal flag.
#[derive(Clone, Copy)]
pub struct TestAttemptPatch {
    pub finish_time: Option<i64>,
    pub has_withdrawn: Option<bool>,
}

impl TestAttemptPatch {
    /// The patch recorded when a user leaves a test early: finished now,
    /// and withdrawn.
    pub fn leave(now: i64) -> (r: TestAttemptPatch)
        ensures
            r.finish_time == Some(now),
            r.has_withdrawn == Some(true),
    {
        TestAttemptPatch { finish_time: Some(now), has_withdrawn: Some(true) }
    }

    /// The patch recorded when a user finishes a test: finished now.
    pub fn finish(now: i64) -> (r: TestAttemptPatch)
        ensures
            r.finish_time == Some(now),
            r.has_withdrawn is None,
    {
        TestAttemptPatch { finish_time: Some(now), has_withdrawn: None }
    }

    /// Applies the patch to the attempt named by uuid, which must belong
    /// to the given user. A patch that changes no column is refused.
    pub fn save(self, test_room_id: u128, user_id: i32, store: &mut Store) -> (r: Result<
        TestAttempt,
        Error,
    >)
        requires
            old(store).wf(),
        ensures
            final(store).wf(),
            ({
                let at = first_idx(
                    old(store).test_attempts@,
                    by_att_uuid_user(test_room_id, user_id),
                );
                if self.finish_time is None && self.has_withdrawn is None {
                    r == Err::<TestAttempt, Error>(Error::NullUpdate) && *final(store) == *old(
                        store,
                    )
                } else if at == -1 {
                    r == Err::<TestAttempt, Error>(Error::NotFound) && *final(store) == *old(store)
                } else {
                    let t0 = old(store).test_attempts@[at];
                    let t1 = TestAttempt {
                        id: t0.id,
                        uuid: t0.uuid,
                        user_id: t0.user_id,
                        test_paper_id: t0.test_paper_id,
                        test_schedule_id: t0.test_schedule_id,
                        start_time: t0.start_time,
                        finish_time: if self.finish_time is Some {
                            self.finish_time
                        } else {
                            t0.finish_time
                        },
                        has_withdrawn: if self.has_withdrawn is Some {
                            self.has_withdrawn
                        } else {
                            t0.has_withdrawn
                        },
                    };
                    r == Ok::<TestAttempt, Error>(t1) && final(store).test_attempts@ == old(
                        store,
                    ).test_attempts@.update(at, t1)
                }
            }),
            final(store).users == old(store).users,
            final(store).test_papers == old(store).test_papers,
            final(store).test_questions == old(store).test_questions,
            final(store).question_options == old(store).question_options,
            final(store).test_schedules == old(store).test_schedules,
            final(store).test_rooms == old(store).test_rooms,
            final(store).test_subscriptions == old(store).test_subscriptions,
            final(store).question_answers == old(store).question_answers,
            final(store).next_id == old(store).next_id,
    {
        if self.finish_time.is_none() && self.has_withdrawn.is_none() {
            return Err(Error::NullUpdate);
        }
        let n = store.test_attempts.len();
        let mut i: usize = 0;
        while i < n
            invariant
                *store == *old(store),
                old(store).wf(),
                !(self.finish_time is None && self.has_withdrawn is None),
                n == store.test_attempts@.len(),
                0 <= i <= n,
                forall|k: int|
                    0 <= k < i ==> !((#[trigger] store.test_attempts@[k]).uuid == test_room_id
                        && store.test_attempts@[k].user_id == user_id),
            decreases n - i,
        {
            let t = &store.test_attempts[i];
            if t.uuid == test_room_id && t.user_id == user_id {
                proof {
                    lemma_first_idx_at(
                        store.test_attempts@,
                        by_att_uuid_user(test_room_id, user_id),
                        i as int,
                    );
                }
                let t0 = store.test_attempts[i];
                let t1 = TestAttempt {
                    id: t0.id,
                    uuid: t0.uuid,
                    user_id: t0.user_id,
                    test_paper_id: t0.test_paper_id,
                    test_schedule_id: t0.test_schedule_id,
                    start_time: t0.start_time,
                    finish_time: match self.finish_time {
                        Some(t) => Some(t),
                        None => t0.finish_time,
                    },
                    has_withdrawn: match self.has_withdrawn {
                        Some(w) => Some(w),
                        None => t0.has_withdrawn,
                    },
                };
                proof {
                    lemma_update_keeps(
                        store.test_attempts@,
                        attempt_id(),
                        old(store).next_id as int,
                        i as int,
                        t1,
                    );
                    lemma_update_keeps(
                        store.test_attempts@,
                        attempt_uuid(),
                        old(store).next_id as int,
                        i as int,
                        t1,
                    );
                    lemma_above_update(store.test_attempts@, attempt_id(), 1, i as int, t1);
                    lemma_above_update(store.test_attempts@, attempt_uuid(), 1, i as int, t1);
                }
                store.test_attempts.set(i, t1);
                return Ok(t1);
            }
            i = i + 1;
        }
        proof {
            lemma_first_idx(store.test_attempts@, by_att_uuid_user(test_room_id, user_id));
        }
        Err(Error::NotFound)
    }
}

/// A type to start a test: the paper and the schedule to sit it under.
#[derive(Clone, Copy)]
pub struct StartTest {
    pub test_paper_id: u128,
    pub test_schedule_id: u128,
}

impl StartTest {
    /// Opens a test attempt for the user at `now`. The paper and schedule
    /// named by uuid must exist, and a fresh row id must be left;
    /// otherwise nothing is written.
    pub fn save(self, user_id: i32, now: i64, store: &mut Store) -> (r: Result<TestAttempt, Error>)
        requires
            old(store).wf(),
        ensures
            final(store).wf(),
            ({
                let pat = first_idx(old(store).test_papers@, by_p_uuid(self.test_paper_id));
                let sat = first_idx(old(store).test_schedules@, by_s_uuid(self.test_schedule_id));
                match r {
                    Ok(t) => {
                        &&& pat >= 0 && sat >= 0
                        &&& old(store).ids_left() >= 1
                        &&& t.user_id == user_id
                        &&& t.test_paper_id == old(store).test_papers@[pat].id
                        &&& t.test_schedule_id == old(store).test_schedules@[sat].id
                        &&& t.start_time == now
                        &&& t.finish_time is None && t.has_withdrawn is None
                        &&& t.id == old(store).next_id && t.uuid == old(store).next_id as u128
                        &&& final(store).test_attempts@ == old(store).test_attempts@.push(t)
                        &&& final(store).next_id == old(store).next_id + 1
                    },
                    Err(e) => {
                        &&& *final(store) == *old(store)
                        &&& (e == Error::NotFound || e == Error::Internal)
                        &&& (e == Error::NotFound <==> pat == -1 || sat == -1)
                        &&& (e == Error::Internal <==> pat >= 0 && sat >= 0 && old(
                            store,
                        ).ids_left() == 0)
                    },
                }
            }),
            final(store).users == old(store).users,
            final(store).test_papers == old(store).test_papers,
            final(store).test_questions == old(store).test_questions,
            final(store).question_options == old(store).question_options,
            final(store).test_schedules == old(store).test_schedules,
            final(store).test_rooms == old(store).test_rooms,
            final(store).test_subscriptions == old(store).test_subscriptions,
            final(store).question_answers == old(store).question_answers,
    {
        let test_paper = match crate::test_paper::TestPaper::find_by_uuid(
            self.test_paper_id,
            store,
        ) {
            Ok(p) => p,
            Err(e) => {
                return Err(e);
            },
        };
        let test_schedule = match crate::test_schedule::TestSchedule::find_by_uuid(
            self.test_schedule_id,
            store,
        ) {
            Ok(s) => s,
            Err(e) => {
                return Err(e);
            },
        };
        if store.next_id == i32::MAX {
            return Err(Error::Internal);
        }
        let (id, uuid) = store.fresh_ids();
        let row = TestAttempt {
            id,
            uuid,
            user_id,
            test_paper_id: test_paper.id,
            test_schedule_id: test_schedule.id,
            start_time: now,
            finish_time: None,
            has_withdrawn: None,
        };
        proof {
            lemma_push_fresh(store.test_attempts@, attempt_id(), row.id as int, row);
            lemma_push_fresh(store.test_attempts@, attempt_uuid(), row.id as int, row);
        }
        store.test_attempts.push(row);
        Ok(row)
    }
}

} // verus!
