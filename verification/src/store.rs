use vstd::prelude::*;

use crate::question_answer::QuestionAnswer;
use crate::question_option::QuestionOption;
use crate::table::{all_above, all_below, strictly_increasing};
use crate::test_attempt::TestAttempt;
use crate::test_paper::TestPaper;
use crate::test_question::TestQuestion;
use crate::test_room::TestRoom;
use crate::test_schedule::TestSchedule;
use crate::test_subscription::TestSubscription;
use crate::user::User;

verus! {

/// The relational store, modelled in memory: one vector per table, plus
/// counters from which fresh row ids and row uuids are drawn. Rows keep
/// their insertion order; ids and uuids grow strictly, so they are unique.
pub struct Store {
    pub users: Vec<User>,
    pub test_papers: Vec<TestPaper>,
    pub test_questions: Vec<TestQuestion>,
    pub question_options: Vec<QuestionOption>,
    pub test_schedules: Vec<TestSchedule>,
    pub test_rooms: Vec<TestRoom>,
    pub test_attempts: Vec<TestAttempt>,
    pub test_subscriptions: Vec<TestSubscription>,
    pub question_answers: Vec<QuestionAnswer>,
    pub next_id: i32,
}

pub open spec fn user_id() -> spec_fn(User) -> int {
    |u: User| u.id as int
}

pub open spec fn user_uuid() -> spec_fn(User) -> int {
    |u: User| u.uuid as int
}

pub open spec fn paper_id() -> spec_fn(TestPaper) -> int {
    |p: TestPaper| p.id as int
}

pub open spec fn paper_uuid() -> spec_fn(TestPaper) -> int {
    |p: TestPaper| p.uuid as int
}

pub open spec fn question_id() -> spec_fn(TestQuestion) -> int {
    |q: TestQuestion| q.id as int
}

pub open spec fn question_uuid() -> spec_fn(TestQuestion) -> int {
    |q: TestQuestion| q.uuid as int
}

pub open spec fn option_id() -> spec_fn(QuestionOption) -> int {
    |o: QuestionOption| o.id as int
}

pub open spec fn option_uuid() -> spec_fn(QuestionOption) -> int {
    |o: QuestionOption| o.uuid as int
}

pub open spec fn schedule_id() -> spec_fn(TestSchedule) -> int {
    |s: TestSchedule| s.id as int
}

pub open spec fn schedule_uuid() -> spec_fn(TestSchedule) -> int {
    |s: TestSchedule| s.uuid as int
}

pub open spec fn room_id() -> spec_fn(TestRoom) -> int {
    |r: TestRoom| r.id as int
}

pub open spec fn room_uuid() -> spec_fn(TestRoom) -> int {
    |r: TestRoom| r.uuid as int
}

pub open spec fn attempt_id() -> spec_fn(TestAttempt) -> int {
    |a: TestAttempt| a.id as int
}

pub open spec fn attempt_uuid() -> spec_fn(TestAttempt) -> int {
    |a: TestAttempt| a.uuid as int
}

pub open spec fn subscription_id() -> spec_fn(TestSubscription) -> int {
    |s: TestSubscription| s.id as int
}

pub open spec fn subscription_uuid() -> spec_fn(TestSubscription) -> int {
    |s: TestSubscription| s.uuid as int
}

pub open spec fn answer_id() -> spec_fn(QuestionAnswer) -> int {
    |a: QuestionAnswer| a.id as int
}

/// At most one answer row exists per attempt and question: an answer is
/// replaced in place, never recorded twice.
pub open spec fn answers_unique(answers: Seq<QuestionAnswer>) -> bool {
    forall|i: int, j: int|
        0 <= i < j < answers.len() ==> !((#[trigger] answers[i]).test_attempt_id == (
        #[trigger] answers[j]).test_attempt_id && answers[i].test_question_id
            == answers[j].test_question_id)
}

/// No two users share an email address.
pub open spec fn emails_distinct(users: Seq<User>) -> bool {
    forall|i: int, j: int|
        0 <= i < j < users.len() ==> (#[trigger] users[i]).email@ != (#[trigger] users[j]).email@
}

impl Store {
    /// Rows of one table have strictly growing ids, all drawn below the
    /// `next_id` counter.
    pub open spec fn table_ids_ok<T>(&self, s: Seq<T>, id_of: spec_fn(T) -> int) -> bool {
        strictly_increasing(s, id_of) && all_below(s, id_of, self.next_id as int) && all_above(
            s,
            id_of,
            1,
        )
    }

    /// Rows of one table have strictly growing uuids. A fresh uuid is drawn
    /// from the same counter as a fresh id, so both stay below it.
    pub open spec fn table_uuids_ok<T>(&self, s: Seq<T>, uuid_of: spec_fn(T) -> int) -> bool {
        strictly_increasing(s, uuid_of) && all_below(s, uuid_of, self.next_id as int) && all_above(
            s,
            uuid_of,
            1,
        )
    }

    /// Well-formedness of the whole store.
    pub open spec fn wf(&self) -> bool {
        &&& 1 <= self.next_id
        &&& self.table_ids_ok(self.users@, user_id())
        &&& self.table_uuids_ok(self.users@, user_uuid())
        &&& emails_distinct(self.users@)
        &&& self.table_ids_ok(self.test_papers@, paper_id())
        &&& self.table_uuids_ok(self.test_papers@, paper_uuid())
        &&& self.table_ids_ok(self.test_questions@, question_id())
        &&& self.table_uuids_ok(self.test_questions@, question_uuid())
        &&& self.table_ids_ok(self.question_options@, option_id())
        &&& self.table_uuids_ok(self.question_options@, option_uuid())
        &&& self.table_ids_ok(self.test_schedules@, schedule_id())
        &&& self.table_uuids_ok(self.test_schedules@, schedule_uuid())
        &&& self.table_ids_ok(self.test_rooms@, room_id())
        &&& self.table_uuids_ok(self.test_rooms@, room_uuid())
        &&& self.table_ids_ok(self.test_attempts@, attempt_id())
        &&& self.table_uuids_ok(self.test_attempts@, attempt_uuid())
        &&& self.table_ids_ok(self.test_subscriptions@, subscription_id())
        &&& self.table_uuids_ok(self.test_subscriptions@, subscription_uuid())
        &&& self.table_ids_ok(self.question_answers@, answer_id())
        &&& answers_unique(self.question_answers@)
    }

    /// An empty store.
    pub fn new() -> (r: Store)
        ensures
            r.wf(),
            r.users@.len() == 0,
            r.test_papers@.len() == 0,
            r.test_questions@.len() == 0,
            r.question_options@.len() == 0,
            r.test_schedules@.len() == 0,
            r.test_rooms@.len() == 0,
            r.test_attempts@.len() == 0,
            r.test_subscriptions@.len() == 0,
            r.question_answers@.len() == 0,
    {
        Store {
            users: Vec::new(),
            test_papers: Vec::new(),
            test_questions: Vec::new(),
            question_options: Vec::new(),
            test_schedules: Vec::new(),
            test_rooms: Vec::new(),
            test_attempts: Vec::new(),
            test_subscriptions: Vec::new(),
            question_answers: Vec::new(),
            next_id: 1,
        }
    }

    /// How many fresh row ids are still available.
    pub open spec fn ids_left(&self) -> int {
        i32::MAX - self.next_id
    }

    /// Draws a fresh id and a fresh uuid, bumping both counters. Every row
    /// already present keeps an id and uuid below the drawn ones.
    pub(crate) fn fresh_ids(&mut self) -> (r: (i32, u128))
        requires
            old(self).wf(),
            old(self).ids_left() >= 1,
        ensures
            final(self).wf(),
            r.0 == old(self).next_id && r.1 == old(self).next_id as u128,
            final(self).next_id == old(self).next_id + 1,
            final(self).ids_left() == old(self).ids_left() - 1,
            final(self).users == old(self).users,
            final(self).test_papers == old(self).test_papers,
            final(self).test_questions == old(self).test_questions,
            final(self).question_options == old(self).question_options,
            final(self).test_schedules == old(self).test_schedules,
            final(self).test_rooms == old(self).test_rooms,
            final(self).test_attempts == old(self).test_attempts,
            final(self).test_subscriptions == old(self).test_subscriptions,
            final(self).question_answers == old(self).question_answers,
    {
        let id = self.next_id;
        let uuid = self.next_id as u128;
        self.next_id = self.next_id + 1;
        (id, uuid)
    }
}

} // verus!
