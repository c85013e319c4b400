use vstd::prelude::*;

use crate::errors::Error;
use crate::field_update::{spec_apply, FieldUpdate};
use crate::store::{paper_id, paper_uuid, Store};
use crate::table::{
    first_idx, lemma_above_update, lemma_first_idx, lemma_first_idx_at, lemma_push_fresh,
    lemma_remove_keeps, lemma_update_keeps,
};
use crate::test_question::{
    questions_ids_needed, spec_questions_inserted, spec_questions_update_accepted,
    TestQuestionForm, TestQuestionsUpdate,
};

verus! {

/// Type of a test.
#[derive(Clone, Copy, Debug, PartialEq, Eq, Structural)]
pub enum TestType {
    Scheduled,
    FreeForm,
}

/// The storage text for a test type.
pub open spec fn spec_test_type_text(t: TestType) -> Seq<char> {
    match t {
        TestType::Scheduled => "Scheduled"@,
        TestType::FreeForm => "FreeForm"@,
    }
}

impl TestType {
    /// Encodes this test type for the store's text representation.
    pub fn to_sql(&self) -> (r: &'static str)
        ensures
            r@ == spec_test_type_text(*self),
    {
        match self {
            TestType::Scheduled => "Scheduled",
            TestType::FreeForm => "FreeForm",
        }
    }

    /// Decodes a test type from the store's text representation; text that
    /// matches no variant is rejected.
    pub fn from_sql(text: &str) -> (r: Result<TestType, Error>)
        ensures
            match r {
                Ok(t) => text@ == spec_test_type_text(t),
                Err(e) => e == Error::Internal && (forall|t: TestType|
                    text@ != spec_test_type_text(t)),
            },
    {
        if crate::strings::str_eq(text, "Scheduled") {
            Ok(TestType::Scheduled)
        } else if crate::strings::str_eq(text, "FreeForm") {
            Ok(TestType::FreeForm)
        } else {
            proof {
                assert forall|t: TestType| text@ != spec_test_type_text(t) by {
                    match t {
                        TestType::Scheduled => {},
                        TestType::FreeForm => {},
                    }
                }
            }
            Err(Error::Internal)
        }
    }
}

/// A test paper row.
#[derive(Debug)]
pub struct TestPaper {
    pub id: i32,
    pub uuid: u128,
    pub name: String,
    pub description: Option<String>,
    pub type_: TestType,
}

impl Clone for TestPaper {
    /// Copies the row, preserving every field.
    fn clone(&self) -> (r: TestPaper)
        ensures
            r == self,
    {
        TestPaper {
            id: self.id,
            uuid: self.uuid,
            name: self.name.clone(),
            description: crate::user::clone_opt_string(&self.description),
            type_: self.type_,
        }
    }
}

/// Matches the paper row with the given id.
pub open spec fn by_p_id(id: i32) -> spec_fn(TestPaper) -> bool {
    |p: TestPaper| p.id == id
}

/// Matches the paper row with the given uuid.
pub open spec fn by_p_uuid(uuid: u128) -> spec_fn(TestPaper) -> bool {
    |p: TestPaper| p.uuid == uuid
}

impl TestPaper {
    /// Gets all test papers, in insertion order.
    pub fn find_all(store: &Store) -> (r: Vec<TestPaper>)
        ensures
            r@ == store.test_papers@,
    {
        let n = store.test_papers.len();
        let mut out: Vec<TestPaper> = Vec::new();
        let mut i: usize = 0;
        while i < n
            invariant
                n == store.test_papers@.len(),
                0 <= i <= n,
                out@ == store.test_papers@.take(i as int),
            decreases n - i,
        {
            out.push(store.test_papers[i].clone());
            proof {
                assert(out@ =~= store.test_papers@.take(i + 1));
            }
            i = i + 1;
        }
        proof {
            assert(store.test_papers@.take(n as int) =~= store.test_papers@);
        }
        out
    }

    /// Gets the paper with the given id, or reports that none exists.
    pub fn find(id: i32, store: &Store) -> (r: Result<TestPaper, Error>)
        ensures
            match r {
                Ok(p) => {
                    let at = first_idx(store.test_papers@, by_p_id(id));
                    at >= 0 && p == store.test_papers@[at]
                },
                Err(e) => e == Error::NotFound && first_idx(store.test_papers@, by_p_id(id)) == -1,
            },
    {
        let n = store.test_papers.len();
        let mut i: usize = 0;
        while i < n
            invariant
                n == store.test_papers@.len(),
                0 <= i <= n,
                forall|k: int| 0 <= k < i ==> (#[trigger] store.test_papers@[k]).id != id,
            decreases n - i,
        {
            if store.test_papers[i].id == id {
                proof {
                    lemma_first_idx_at(store.test_papers@, by_p_id(id), i as int);
                }
                return Ok(store.test_papers[i].clone());
            }
            i = i + 1;
        }
        proof {
            lemma_first_idx(store.test_papers@, by_p_id(id));
        }
        Err(Error::NotFound)
    }

    /// Gets the paper with the given uuid, or reports that none exists.
    pub fn find_by_uuid(uuid: u128, store: &Store) -> (r: Result<TestPaper, Error>)
        ensures
            match r {
                Ok(p) => {
                    let at = first_idx(store.test_papers@, by_p_uuid(uuid));
                    at >= 0 && p == store.test_papers@[at]
                },
                Err(e) => e == Error::NotFound && first_idx(store.test_papers@, by_p_uuid(uuid))
                    == -1,
            },
    {
        let n = store.test_papers.len();
        let mut i: usize = 0;
        while i < n
            invariant
                n == store.test_papers@.len(),
                0 <= i <= n,
                forall|k: int| 0 <= k < i ==> (#[trigger] store.test_papers@[k]).uuid != uuid,
            decreases n - i,
        {
            if store.test_papers[i].uuid == uuid {
                proof {
                    lemma_first_idx_at(store.test_papers@, by_p_uuid(uuid), i as int);
                }
                return Ok(store.test_papers[i].clone());
            }
            i = i + 1;
        }
        proof {
            lemma_first_idx(store.test_papers@, by_p_uuid(uuid));
        }
        Err(Error::NotFound)
    }

    /// Deletes the paper with the given uuid, returning the removed row,
    /// or reports that none exists. Nothing else changes.
    pub fn delete_by_uuid(uuid: u128, store: &mut Store) -> (r: Result<TestPaper, Error>)
        requires
            old(store).wf(),
        ensures
            final(store).wf(),
            match r {
                Ok(p) => {
                    let at = first_idx(old(store).test_papers@, by_p_uuid(uuid));
                    at >= 0 && p == old(store).test_papers@[at] && final(store).test_papers@
                        == old(store).test_papers@.remove(at)
                },
                Err(e) => e == Error::NotFound && first_idx(
                    old(store).test_papers@,
                    by_p_uuid(uuid),
                ) == -1 && final(store).test_papers@ == old(store).test_papers@,
            },
            final(store).users == old(store).users,
            final(store).test_questions == old(store).test_questions,
            final(store).question_options == old(store).question_options,
            final(store).test_schedules == old(store).test_schedules,
            final(store).test_rooms == old(store).test_rooms,
            final(store).test_attempts == old(store).test_attempts,
            final(store).test_subscriptions == old(store).test_subscriptions,
            final(store).question_answers == old(store).question_answers,
            final(store).next_id == old(store).next_id,
    {
        let n = store.test_papers.len();
        let mut i: usize = 0;
        while i < n
            invariant
                *store == *old(store),
                old(store).wf(),
                n == store.test_papers@.len(),
                0 <= i <= n,
                forall|k: int| 0 <= k < i ==> (#[trigger] store.test_papers@[k]).uuid != uuid,
            decreases n - i,
        {
            if store.test_papers[i].uuid == uuid {
                proof {
                    lemma_first_idx_at(store.test_papers@, by_p_uuid(uuid), i as int);
                    lemma_remove_keeps(
                        store.test_papers@,
                        paper_id(),
                        old(store).next_id as int,
                        i as int,
                    );
                    lemma_remove_keeps(
                        store.test_papers@,
                        paper_uuid(),
                        old(store).next_id as int,
                        i as int,
                    );
                    crate::table::lemma_above_remove(store.test_papers@, paper_id(), 1, i as int);
                    crate::table::lemma_above_remove(
                        store.test_papers@,
                        paper_uuid(),
                        1,
                        i as int,
                    );
                }
                let removed = store.test_papers[i].clone();
                store.test_papers.remove(i);
                return Ok(removed);
            }
            i = i + 1;
        }
        proof {
            lemma_first_idx(store.test_papers@, by_p_uuid(uuid));
        }
        Err(Error::NotFound)
    }
}

/// Copies a vector of paper rows, preserving its contents.
fn clone_paper_rows(v: &Vec<TestPaper>) -> (r: Vec<TestPaper>)
    ensures
        r@ == v@,
{
    let r = v.clone();
    proof {
        assert forall|i: int| 0 <= i < v@.len() implies r@[i] == v@[i] by {
            assert(cloned::<TestPaper>(v@[i], r@[i]));
        }
        assert(r@ =~= v@);
    }
    r
}

/// A type to create a new test paper with its questions and their options.
pub struct TestPaperForm {
    pub name: String,
    pub description: Option<String>,
    pub type_: TestType,
    pub questions: Vec<TestQuestionForm>,
}

/// What creating a paper does: either every row the form carries appears
/// (the paper itself, then its questions, each followed by its options),
/// or nothing at all does, when fewer row ids are left than the form
/// needs.
pub open spec fn spec_paper_form_outcome(
    pre: Store,
    post: Store,
    form: TestPaperForm,
    r: Result<TestPaper, Error>,
) -> bool {
    if pre.ids_left() >= 1 + questions_ids_needed(form.questions@) {
        r matches Ok(p) && {
            &&& post.test_papers@ == pre.test_papers@.push(p)
            &&& p.id == pre.next_id && p.uuid == pre.next_id as u128
            &&& p.name == form.name && p.description == form.description
            &&& p.type_ == form.type_
            &&& spec_questions_inserted(
                pre.test_questions@,
                pre.question_options@,
                pre.next_id + 1,
                post.test_questions@,
                post.question_options@,
                post.next_id as int,
                form.questions@,
                p.id,
            )
        }
    } else {
        r == Err::<TestPaper, Error>(Error::Internal) && post == pre
    }
}

impl TestPaperForm {
    /// Creates the paper with every question and option it carries, as one
    /// transaction: either all the rows appear, or none do and the refusal
    /// is reported.
    pub fn save(self, store: &mut Store) -> (r: Result<TestPaper, Error>)
        requires
            old(store).wf(),
        ensures
            final(store).wf(),
            final(store).users == old(store).users,
            final(store).test_schedules == old(store).test_schedules,
            final(store).test_rooms == old(store).test_rooms,
            final(store).test_attempts == old(store).test_attempts,
            final(store).test_subscriptions == old(store).test_subscriptions,
            final(store).question_answers == old(store).question_answers,
            spec_paper_form_outcome(*old(store), *final(store), self, r),
    {
        // The new rows go to a scratch copy of the tables they touch; only
        // a fully successful run is written back.
        let mut scratch = Store {
            users: Vec::new(),
            test_papers: clone_paper_rows(&store.test_papers),
            test_questions: crate::test_question::clone_question_rows(&store.test_questions),
            question_options: crate::test_question::clone_option_rows(&store.question_options),
            test_schedules: Vec::new(),
            test_rooms: Vec::new(),
            test_attempts: Vec::new(),
            test_subscriptions: Vec::new(),
            question_answers: Vec::new(),
            next_id: store.next_id,
        };
        proof {
            assert(scratch.wf());
            crate::test_question::lemma_questions_ids_needed_nonneg(self.questions@);
        }
        if scratch.next_id == i32::MAX {
            return Err(Error::Internal);
        }
        let (id, uuid) = scratch.fresh_ids();
        let row = TestPaper {
            id,
            uuid,
            name: self.name,
            description: self.description,
            type_: self.type_,
        };
        let saved_paper = row.clone();
        proof {
            lemma_push_fresh(scratch.test_papers@, paper_id(), row.id as int, row);
            lemma_push_fresh(scratch.test_papers@, paper_uuid(), row.id as int, row);
        }
        scratch.test_papers.push(row);
        match TestQuestionForm::save_multiple(self.questions, id, &mut scratch) {
            Ok(_) => {},
            Err(e) => {
                return Err(e);
            },
        }
        proof {
            crate::table::lemma_below_weaken(
                store.users@,
                crate::store::user_id(),
                old(store).next_id as int,
                scratch.next_id as int,
            );
            crate::table::lemma_below_weaken(
                store.users@,
                crate::store::user_uuid(),
                old(store).next_id as int,
                scratch.next_id as int,
            );
            crate::table::lemma_below_weaken(
                store.test_schedules@,
                crate::store::schedule_id(),
                old(store).next_id as int,
                scratch.next_id as int,
            );
            crate::table::lemma_below_weaken(
                store.test_schedules@,
                crate::store::schedule_uuid(),
                old(store).next_id as int,
                scratch.next_id as int,
            );
            crate::table::lemma_below_weaken(
                store.test_rooms@,
                crate::store::room_id(),
                old(store).next_id as int,
                scratch.next_id as int,
            );
            crate::table::lemma_below_weaken(
                store.test_rooms@,
                crate::store::room_uuid(),
                old(store).next_id as int,
                scratch.next_id as int,
            );
            crate::table::lemma_below_weaken(
                store.test_attempts@,
                crate::store::attempt_id(),
                old(store).next_id as int,
                scratch.next_id as int,
            );
            crate::table::lemma_below_weaken(
                store.test_attempts@,
                crate::store::attempt_uuid(),
                old(store).next_id as int,
                scratch.next_id as int,
            );
            crate::table::lemma_below_weaken(
                store.test_subscriptions@,
                crate::store::subscription_id(),
                old(store).next_id as int,
                scratch.next_id as int,
            );
            crate::table::lemma_below_weaken(
                store.test_subscriptions@,
                crate::store::subscription_uuid(),
                old(store).next_id as int,
                scratch.next_id as int,
            );
            crate::table::lemma_below_weaken(
                store.question_answers@,
                crate::store::answer_id(),
                old(store).next_id as int,
                scratch.next_id as int,
            );
        }
        store.test_papers = scratch.test_papers;
        store.test_questions = scratch.test_questions;
        store.question_options = scratch.question_options;
        store.next_id = scratch.next_id;
        Ok(saved_paper)
    }
}

/// The paper row that applying a paper patch yields; id and uuid never
/// move.
pub open spec fn spec_apply_paper_patch(
    p: TestPaper,
    name: Option<String>,
    description: FieldUpdate<String>,
    type_: Option<TestType>,
) -> TestPaper {
    TestPaper {
        id: p.id,
        uuid: p.uuid,
        name: if name is Some {
            name.unwrap()
        } else {
            p.name
        },
        description: spec_apply(p.description, description),
        type_: if type_ is Some {
            type_.unwrap()
        } else {
            p.type_
        },
    }
}

/// A type to update a test paper and its questions.
pub struct TestPaperUpdate {
    pub id: u128,
    pub name: Option<String>,
    pub description: FieldUpdate<String>,
    pub type_: Option<TestType>,
    pub questions: TestQuestionsUpdate,
}

/// What updating a paper does: the paper named by uuid must exist; on
/// success its own columns are patched and its questions go through the
/// three-phase update, all as one transaction. A refusal at any step
/// leaves the store untouched.
pub open spec fn spec_paper_update_outcome(
    pre: Store,
    post: Store,
    upd: TestPaperUpdate,
    r: Result<TestPaper, Error>,
) -> bool {
    &&& (first_idx(pre.test_papers@, by_p_uuid(upd.id)) == -1 ==> r == Err::<TestPaper, Error>(
        Error::NotFound,
    ))
    &&& (r is Err ==> post == pre && (r == Err::<TestPaper, Error>(Error::NotFound) || r == Err::<
        TestPaper,
        Error,
    >(Error::NullUpdate) || r == Err::<TestPaper, Error>(Error::Internal)))
    &&& (first_idx(pre.test_papers@, by_p_uuid(upd.id)) >= 0 && spec_questions_update_accepted(
        pre.test_questions@,
        pre.ids_left(),
        upd.questions,
        pre.test_papers@[first_idx(pre.test_papers@, by_p_uuid(upd.id))].id,
    ) ==> r is Ok)
    &&& (r matches Ok(p) ==> ({
        let at = first_idx(pre.test_papers@, by_p_uuid(upd.id));
        &&& at >= 0
        &&& p == spec_apply_paper_patch(pre.test_papers@[at], upd.name, upd.description, upd.type_)
        &&& post.test_papers@ == pre.test_papers@.update(at, p)
        &&& exists|s1: Store, s2: Store|
            {
                &&& #[trigger] spec_questions_inserted(
                    pre.test_questions@,
                    pre.question_options@,
                    pre.next_id as int,
                    s1.test_questions@,
                    s1.question_options@,
                    s1.next_id as int,
                    upd.questions.new@,
                    p.id,
                )
                &&& #[trigger] crate::test_question::spec_q_updates_applied(
                    s1,
                    s2,
                    upd.questions.update@,
                    p.id,
                )
                &&& crate::test_question::spec_questions_removed(
                    s2.test_questions@,
                    post.test_questions@,
                    upd.questions.remove@,
                    p.id,
                    Ok(()),
                )
                &&& post.question_options@ == s2.question_options@
                &&& post.next_id == s2.next_id
            }
    }))
}

impl TestPaperUpdate {
    /// Updates the paper's own columns and its questions, as one
    /// transaction: a refusal at any step leaves the store untouched.
    /// A patch that changes no paper column is fine here; the questions
    /// update stands on its own.
    pub fn save(self, store: &mut Store) -> (r: Result<TestPaper, Error>)
        requires
            old(store).wf(),
        ensures
            final(store).wf(),
            final(store).users == old(store).users,
            final(store).test_schedules == old(store).test_schedules,
            final(store).test_rooms == old(store).test_rooms,
            final(store).test_attempts == old(store).test_attempts,
            final(store).test_subscriptions == old(store).test_subscriptions,
            final(store).question_answers == old(store).question_answers,
            spec_paper_update_outcome(*old(store), *final(store), self, r),
    {
        let n = store.test_papers.len();
        let mut at: usize = 0;
        let mut found = false;
        while at < n && !found
            invariant
                *store == *old(store),
                old(store).wf(),
                n == store.test_papers@.len(),
                0 <= at <= n,
                found ==> at < n && store.test_papers@[at as int].uuid == self.id,
                !found ==> forall|k: int| 0 <= k < at ==> (#[trigger] store.test_papers@[k]).uuid
                    != self.id,
                found ==> forall|k: int| 0 <= k < at ==> (#[trigger] store.test_papers@[k]).uuid
                    != self.id,
            decreases n - at + (if found { 0int } else { 1int }),
        {
            if store.test_papers[at].uuid == self.id {
                found = true;
            } else {
                at = at + 1;
            }
        }
        if !found {
            proof {
                lemma_first_idx(store.test_papers@, by_p_uuid(self.id));
            }
            return Err(Error::NotFound);
        }
        proof {
            lemma_first_idx_at(store.test_papers@, by_p_uuid(self.id), at as int);
        }
        let paper_id_val = store.test_papers[at].id;
        let ghost pre_q = *store;
        let ghost g_new = self.questions.new@;
        let ghost g_upd = self.questions.update@;
        let ghost g_rem = self.questions.remove@;

        match self.questions.save(paper_id_val, store) {
            Ok(_) => {},
            Err(e) => {
                proof {
                    if spec_questions_update_accepted(
                        old(store).test_questions@,
                        old(store).ids_left(),
                        self.questions,
                        paper_id_val,
                    ) {
                        assert(false);
                    }
                }
                return Err(e);
            },
        }
        let ghost post_q = *store;

        // The questions update leaves the papers table alone, so the row
        // found above still stands at the same place; patch it now.
        let row = store.test_papers[at].clone();
        let patched = TestPaper {
            id: row.id,
            uuid: row.uuid,
            name: match self.name {
                Some(name) => name,
                None => row.name,
            },
            description: crate::field_update::apply_field(row.description, self.description),
            type_: match self.type_ {
                Some(t) => t,
                None => row.type_,
            },
        };
        proof {
            lemma_update_keeps(
                store.test_papers@,
                paper_id(),
                store.next_id as int,
                at as int,
                patched,
            );
            lemma_update_keeps(
                store.test_papers@,
                paper_uuid(),
                store.next_id as int,
                at as int,
                patched,
            );
            lemma_above_update(store.test_papers@, paper_id(), 1, at as int, patched);
            lemma_above_update(store.test_papers@, paper_uuid(), 1, at as int, patched);
        }
        let result = patched.clone();
        store.test_papers.set(at, patched);
        proof {
            let (s1, s2) = choose|s1: Store, s2: Store|
                {
                    &&& #[trigger] spec_questions_inserted(
                        pre_q.test_questions@,
                        pre_q.question_options@,
                        pre_q.next_id as int,
                        s1.test_questions@,
                        s1.question_options@,
                        s1.next_id as int,
                        g_new,
                        paper_id_val,
                    )
                    &&& #[trigger] crate::test_question::spec_q_updates_applied(
                        s1,
                        s2,
                        g_upd,
                        paper_id_val,
                    )
                    &&& crate::test_question::spec_questions_removed(
                        s2.test_questions@,
                        post_q.test_questions@,
                        g_rem,
                        paper_id_val,
                        Ok(()),
                    )
                    &&& post_q.question_options@ == s2.question_options@
                    &&& post_q.next_id == s2.next_id
                };
            assert(result.id == paper_id_val);
            assert(spec_questions_inserted(
                old(store).test_questions@,
                old(store).question_options@,
                old(store).next_id as int,
                s1.test_questions@,
                s1.question_options@,
                s1.next_id as int,
                self.questions.new@,
                result.id,
            ));
            assert(crate::test_question::spec_q_updates_applied(
                s1,
                s2,
                self.questions.update@,
                result.id,
            ));
            assert(crate::test_question::spec_questions_removed(
                s2.test_questions@,
                store.test_questions@,
                self.questions.remove@,
                result.id,
                Ok(()),
            ));
            assert(store.question_options@ == s2.question_options@);
            assert(store.next_id == s2.next_id);
        }
        Ok(result)
    }
}

} // verus!
