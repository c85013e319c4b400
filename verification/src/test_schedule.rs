use vstd::prelude::*;

use crate::errors::Error;
use crate::store::{schedule_id, schedule_uuid, Store};
use crate::table::{
    first_idx, lemma_above_remove, lemma_above_update, lemma_first_idx, lemma_first_idx_at,
    lemma_push_fresh, lemma_remove_keeps, lemma_update_keeps,
};
use crate::test_paper::by_p_uuid;

verus! {

/// A test schedule row: a start time (seconds since the epoch) and a
/// duration in seconds for one test paper.
#[derive(Clone, Copy, Debug)]
pub struct TestSchedule {
    pub id: i32,
    pub uuid: u128,
    pub test_paper_id: i32,
    pub time: i64,
    pub duration: i32,
}

/// Matches the schedule row with the given id.
pub open spec fn by_s_id(id: i32) -> spec_fn(TestSchedule) -> bool {
    |s: TestSchedule| s.id == id
}

/// Matches the schedule row with the given uuid.
pub open spec fn by_s_uuid(uuid: u128) -> spec_fn(TestSchedule) -> bool {
    |s: TestSchedule| s.uuid == uuid
}

/// Matches the schedule rows of one paper.
pub open spec fn by_s_paper(paper: i32) -> spec_fn(TestSchedule) -> bool {
    |s: TestSchedule| s.test_paper_id == paper
}

impl TestSchedule {
    /// Whether the test is underway at `now`: it has started and its
    /// duration has not yet elapsed.
    pub fn is_happening(&self, now: i64) -> (r: bool)
        ensures
            r == (self.time < now && self.time + self.duration > now),
    {
        self.time < now && (self.time as i128 + self.duration as i128) > now as i128
    }

    /// Gets all schedules of one paper, in insertion order.
    pub fn find_all_for_test_paper(test_paper_id: i32, store: &Store) -> (r: Vec<TestSchedule>)
        ensures
            r@ == store.test_schedules@.filter(by_s_paper(test_paper_id)),
    {
        let n = store.test_schedules.len();
        let mut out: Vec<TestSchedule> = Vec::new();
        let mut i: usize = 0;
        while i < n
            invariant
                n == store.test_schedules@.len(),
                0 <= i <= n,
                out@ == store.test_schedules@.take(i as int).filter(by_s_paper(test_paper_id)),
            decreases n - i,
        {
            proof {
                reveal(Seq::filter);
                assert(store.test_schedules@.take(i + 1).drop_last() =~= store.test_schedules@.take(
                    i as int,
                ));
                assert(store.test_schedules@.take(i + 1).last() == store.test_schedules@[i as int]);
            }
            if store.test_schedules[i].test_paper_id == test_paper_id {
                out.push(store.test_schedules[i]);
            }
            i = i + 1;
        }
        proof {
            assert(store.test_schedules@.take(n as int) =~= store.test_schedules@);
        }
        out
    }

    /// Gets the schedule with the given id, or reports that none exists.
    pub fn find(id: i32, store: &Store) -> (r: Result<TestSchedule, Error>)
        ensures
            match r {
                Ok(s) => {
                    let at = first_idx(store.test_schedules@, by_s_id(id));
                    at >= 0 && s == store.test_schedules@[at]
                },
                Err(e) => e == Error::NotFound && first_idx(store.test_schedules@, by_s_id(id))
                    == -1,
            },
    {
        let n = store.test_schedules.len();
        let mut i: usize = 0;
        while i < n
            invariant
                n == store.test_schedules@.len(),
                0 <= i <= n,
                forall|k: int| 0 <= k < i ==> (#[trigger] store.test_schedules@[k]).id != id,
            decreases n - i,
        {
            if store.test_schedules[i].id == id {
                proof {
                    lemma_first_idx_at(store.test_schedules@, by_s_id(id), i as int);
                }
                return Ok(store.test_schedules[i]);
            }
            i = i + 1;
        }
        proof {
            lemma_first_idx(store.test_schedules@, by_s_id(id));
        }
        Err(Error::NotFound)
    }

    /// Gets the schedule with the given uuid, or reports that none exists.
    pub fn find_by_uuid(uuid: u128, store: &Store) -> (r: Result<TestSchedule, Error>)
        ensures
            match r {
                Ok(s) => {
                    let at = first_idx(store.test_schedules@, by_s_uuid(uuid));
                    at >= 0 && s == store.test_schedules@[at]
                },
                Err(e) => e == Error::NotFound && first_idx(store.test_schedules@, by_s_uuid(uuid))
                    == -1,
            },
    {
        let n = store.test_schedules.len();
        let mut i: usize = 0;
        while i < n
            invariant
                n == store.test_schedules@.len(),
                0 <= i <= n,
                forall|k: int| 0 <= k < i ==> (#[trigger] store.test_schedules@[k]).uuid != uuid,
            decreases n - i,
        {
            if store.test_schedules[i].uuid == uuid {
                proof {
                    lemma_first_idx_at(store.test_schedules@, by_s_uuid(uuid), i as int);
                }
                return Ok(store.test_schedules[i]);
            }
            i = i + 1;
        }
        proof {
            lemma_first_idx(store.test_schedules@, by_s_uuid(uuid));
        }
        Err(Error::NotFound)
    }

    /// Deletes the schedule with the given uuid, returning the removed
    /// row, or reports that none exists. Nothing else changes.
    pub fn delete_by_uuid(uuid: u128, store: &mut Store) -> (r: Result<TestSchedule, Error>)
        requires
            old(store).wf(),
        ensures
            final(store).wf(),
            match r {
                Ok(s) => {
                    let at = first_idx(old(store).test_schedules@, by_s_uuid(uuid));
                    at >= 0 && s == old(store).test_schedules@[at] && final(store).test_schedules@
                        == old(store).test_schedules@.remove(at)
                },
                Err(e) => e == Error::NotFound && first_idx(
                    old(store).test_schedules@,
                    by_s_uuid(uuid),
                ) == -1 && final(store).test_schedules@ == old(store).test_schedules@,
            },
            final(store).users == old(store).users,
            final(store).test_papers == old(store).test_papers,
            final(store).test_questions == old(store).test_questions,
            final(store).question_options == old(store).question_options,
            final(store).test_rooms == old(store).test_rooms,
            final(store).test_attempts == old(store).test_attempts,
            final(store).test_subscriptions == old(store).test_subscriptions,
            final(store).question_answers == old(store).question_answers,
            final(store).next_id == old(store).next_id,
    {
        let n = store.test_schedules.len();
        let mut i: usize = 0;
        while i < n
            invariant
                *store == *old(store),
                old(store).wf(),
                n == store.test_schedules@.len(),
                0 <= i <= n,
                forall|k: int| 0 <= k < i ==> (#[trigger] store.test_schedules@[k]).uuid != uuid,
            decreases n - i,
        {
            if store.test_schedules[i].uuid == uuid {
                proof {
                    lemma_first_idx_at(store.test_schedules@, by_s_uuid(uuid), i as int);
                    lemma_remove_keeps(
                        store.test_schedules@,
                        schedule_id(),
                        old(store).next_id as int,
                        i as int,
                    );
                    lemma_remove_keeps(
                        store.test_schedules@,
                        schedule_uuid(),
                        old(store).next_id as int,
                        i as int,
                    );
                    lemma_above_remove(store.test_schedules@, schedule_id(), 1, i as int);
                    lemma_above_remove(store.test_schedules@, schedule_uuid(), 1, i as int);
                }
                let removed = store.test_schedules[i];
                store.test_schedules.remove(i);
                return Ok(removed);
            }
            i = i + 1;
        }
        proof {
            lemma_first_idx(store.test_schedules@, by_s_uuid(uuid));
        }
        Err(Error::NotFound)
    }
}

/// A type to create a new schedule for a test paper.
#[derive(Clone, Copy)]
pub struct TestScheduleForm {
    pub test_paper_id: u128,
    pub time: i64,
    pub duration: i32,
}

impl TestScheduleForm {
    /// Creates the schedule. The paper named by uuid must exist, and a
    /// fresh row id must be left; otherwise nothing is written.
    pub fn save(self, store: &mut Store) -> (r: Result<TestSchedule, Error>)
        requires
            old(store).wf(),
        ensures
            final(store).wf(),
            ({
                let at = first_idx(old(store).test_papers@, by_p_uuid(self.test_paper_id));
                match r {
                    Ok(s) => {
                        &&& at >= 0
                        &&& old(store).ids_left() >= 1
                        &&& s.test_paper_id == old(store).test_papers@[at].id
                        &&& s.time == self.time && s.duration == self.duration
                        &&& s.id == old(store).next_id && s.uuid == old(store).next_id as u128
                        &&& final(store).test_schedules@ == old(store).test_schedules@.push(s)
                        &&& final(store).next_id == old(store).next_id + 1
                    },
                    Err(e) => {
                        &&& *final(store) == *old(store)
                        &&& (e == Error::NotFound || e == Error::Internal)
                        &&& (e == Error::NotFound <==> at == -1)
                        &&& (e == Error::Internal <==> at >= 0 && old(store).ids_left() == 0)
                    },
                }
            }),
            final(store).users == old(store).users,
            final(store).test_papers == old(store).test_papers,
            final(store).test_questions == old(store).test_questions,
            final(store).question_options == old(store).question_options,
            final(store).test_rooms == old(store).test_rooms,
            final(store).test_attempts == old(store).test_attempts,
            final(store).test_subscriptions == old(store).test_subscriptions,
            final(store).question_answers == old(store).question_answers,
    {
        let test_paper = match crate::test_paper::TestPaper::find_by_uuid(
            self.test_paper_id,
            store,
        ) {
            Ok(p) => p,
            Err(e) => {
                return Err(e);
            },
        };
        if store.next_id == i32::MAX {
            return Err(Error::Internal);
        }
        let (id, uuid) = store.fresh_ids();
        let row = TestSchedule {
            id,
            uuid,
            test_paper_id: test_paper.id,
            time: self.time,
            duration: self.duration,
        };
        proof {
            lemma_push_fresh(store.test_schedules@, schedule_id(), row.id as int, row);
            lemma_push_fresh(store.test_schedules@, schedule_uuid(), row.id as int, row);
        }
        store.test_schedules.push(row);
        Ok(row)
    }
}

/// A type to update a test schedule's time or duration.
#[derive(Clone, Copy)]
pub struct TestScheduleUpdate {
    pub id: u128,
    pub time: Option<i64>,
    pub duration: Option<i32>,
}

impl TestScheduleUpdate {
    /// Updates the schedule named by uuid. A patch that changes no column
    /// is refused; so is a uuid that names no schedule.
    pub fn save(self, store: &mut Store) -> (r: Result<TestSchedule, Error>)
        requires
            old(store).wf(),
        ensures
            final(store).wf(),
            ({
                let at = first_idx(old(store).test_schedules@, by_s_uuid(self.id));
                if self.time is None && self.duration is None {
                    r == Err::<TestSchedule, Error>(Error::NullUpdate) && *final(store) == *old(
                        store,
                    )
                } else if at == -1 {
                    r == Err::<TestSchedule, Error>(Error::NotFound) && *final(store) == *old(store)
                } else {
                    let s0 = old(store).test_schedules@[at];
                    let s1 = TestSchedule {
                        id: s0.id,
                        uuid: s0.uuid,
                        test_paper_id: s0.test_paper_id,
                        time: if self.time is Some {
                            self.time.unwrap()
                        } else {
                            s0.time
                        },
                        duration: if self.duration is Some {
                            self.duration.unwrap()
                        } else {
                            s0.duration
                        },
                    };
                    r == Ok::<TestSchedule, Error>(s1) && final(store).test_schedules@ == old(
                        store,
                    ).test_schedules@.update(at, s1)
                }
            }),
            final(store).users == old(store).users,
            final(store).test_papers == old(store).test_papers,
            final(store).test_questions == old(store).test_questions,
            final(store).question_options == old(store).question_options,
            final(store).test_rooms == old(store).test_rooms,
            final(store).test_attempts == old(store).test_attempts,
            final(store).test_subscriptions == old(store).test_subscriptions,
            final(store).question_answers == old(store).question_answers,
            final(store).next_id == old(store).next_id,
    {
        if self.time.is_none() && self.duration.is_none() {
            return Err(Error::NullUpdate);
        }
        let n = store.test_schedules.len();
        let mut i: usize = 0;
        while i < n
            invariant
                *store == *old(store),
                old(store).wf(),
                !(self.time is None && self.duration is None),
                n == store.test_schedules@.len(),
                0 <= i <= n,
                forall|k: int| 0 <= k < i ==> (#[trigger] store.test_schedules@[k]).uuid
                    != self.id,
            decreases n - i,
        {
            if store.test_schedules[i].uuid == self.id {
                proof {
                    lemma_first_idx_at(store.test_schedules@, by_s_uuid(self.id), i as int);
                }
                let s0 = store.test_schedules[i];
                let s1 = TestSchedule {
                    id: s0.id,
                    uuid: s0.uuid,
                    test_paper_id: s0.test_paper_id,
                    time: match self.time {
                        Some(t) => t,
                        None => s0.time,
                    },
                    duration: match self.duration {
                        Some(d) => d,
                        None => s0.duration,
                    },
                };
                proof {
                    lemma_update_keeps(
                        store.test_schedules@,
                        schedule_id(),
                        old(store).next_id as int,
                        i as int,
                        s1,
                    );
                    lemma_update_keeps(
                        store.test_schedules@,
                        schedule_uuid(),
                        old(store).next_id as int,
                        i as int,
                        s1,
                    );
                    lemma_above_update(store.test_schedules@, schedule_id(), 1, i as int, s1);
                    lemma_above_update(store.test_schedules@, schedule_uuid(), 1, i as int, s1);
                }
                store.test_schedules.set(i, s1);
                return Ok(s1);
            }
            i = i + 1;
        }
        proof {
            lemma_first_idx(store.test_schedules@, by_s_uuid(self.id));
        }
        Err(Error::NotFound)
    }
}

} // verus!
