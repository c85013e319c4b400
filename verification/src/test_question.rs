use vstd::prelude::*;

use crate::errors::Error;
use crate::question_option::{
    opt_update_empty, spec_apply_opt_updates, spec_options_update_outcome, QuestionOption,
    QuestionOptionForm, QuestionOptionsUpdate,
};
use crate::store::{question_id, question_uuid, Store};
use crate::table::{
    first_idx, lemma_filter_increasing, lemma_first_idx, lemma_first_idx_at, lemma_increasing_len,
    lemma_push_fresh, lemma_update_keeps,
};

verus! {

/// A test question row, belonging to one test paper.
#[derive(Debug)]
pub struct TestQuestion {
    pub id: i32,
    pub uuid: u128,
    pub question: String,
    pub test_paper_id: i32,
}

impl Clone for TestQuestion {
    /// Copies the row, preserving every field.
    fn clone(&self) -> (r: TestQuestion)
        ensures
            r == self,
    {
        TestQuestion {
            id: self.id,
            uuid: self.uuid,
            question: self.question.clone(),
            test_paper_id: self.test_paper_id,
        }
    }
}

/// Matches the question row with the given id.
pub open spec fn by_q_id(id: i32) -> spec_fn(TestQuestion) -> bool {
    |q: TestQuestion| q.id == id
}

/// Matches the question row with the given uuid belonging to the given
/// paper.
pub open spec fn by_q_uuid_paper(uuid: u128, paper: i32) -> spec_fn(TestQuestion) -> bool {
    |q: TestQuestion| q.uuid == uuid && q.test_paper_id == paper
}

/// Matches the question rows of one paper.
pub open spec fn by_q_paper(paper: i32) -> spec_fn(TestQuestion) -> bool {
    |q: TestQuestion| q.test_paper_id == paper
}

impl TestQuestion {
    /// Gets the question with the given id, or reports that none exists.
    pub fn find(id: i32, store: &Store) -> (r: Result<TestQuestion, Error>)
        ensures
            match r {
                Ok(q) => {
                    let at = first_idx(store.test_questions@, by_q_id(id));
                    at >= 0 && q == store.test_questions@[at]
                },
                Err(e) => e == Error::NotFound && first_idx(store.test_questions@, by_q_id(id))
                    == -1,
            },
    {
        let n = store.test_questions.len();
        let mut i: usize = 0;
        while i < n
            invariant
                n == store.test_questions@.len(),
                0 <= i <= n,
                forall|k: int| 0 <= k < i ==> (#[trigger] store.test_questions@[k]).id != id,
            decreases n - i,
        {
            if store.test_questions[i].id == id {
                proof {
                    lemma_first_idx_at(store.test_questions@, by_q_id(id), i as int);
                }
                return Ok(store.test_questions[i].clone());
            }
            i = i + 1;
        }
        proof {
            lemma_first_idx(store.test_questions@, by_q_id(id));
        }
        Err(Error::NotFound)
    }

    /// Gets all questions of one paper, in insertion order.
    pub fn find_all(test_paper_id: i32, store: &Store) -> (r: Vec<TestQuestion>)
        ensures
            r@ == store.test_questions@.filter(by_q_paper(test_paper_id)),
    {
        let n = store.test_questions.len();
        let mut out: Vec<TestQuestion> = Vec::new();
        let mut i: usize = 0;
        while i < n
            invariant
                n == store.test_questions@.len(),
                0 <= i <= n,
                out@ == store.test_questions@.take(i as int).filter(by_q_paper(test_paper_id)),
            decreases n - i,
        {
            proof {
                reveal(Seq::filter);
                assert(store.test_questions@.take(i + 1).drop_last() =~= store.test_questions@.take(
                    i as int,
                ));
                assert(store.test_questions@.take(i + 1).last() == store.test_questions@[i as int]);
            }
            if store.test_questions[i].test_paper_id == test_paper_id {
                out.push(store.test_questions[i].clone());
            }
            i = i + 1;
        }
        proof {
            assert(store.test_questions@.take(n as int) =~= store.test_questions@);
        }
        out
    }

    /// Gets the question with the given uuid belonging to the given paper,
    /// or reports that none exists.
    pub fn find_by_uuid_for_test_paper(uuid: u128, test_paper_id: i32, store: &Store) -> (r: Result<
        TestQuestion,
        Error,
    >)
        ensures
            match r {
                Ok(q) => {
                    let at = first_idx(
                        store.test_questions@,
                        by_q_uuid_paper(uuid, test_paper_id),
                    );
                    at >= 0 && q == store.test_questions@[at]
                },
                Err(e) => e == Error::NotFound && first_idx(
                    store.test_questions@,
                    by_q_uuid_paper(uuid, test_paper_id),
                ) == -1,
            },
    {
        let n = store.test_questions.len();
        let mut i: usize = 0;
        while i < n
            invariant
                n == store.test_questions@.len(),
                0 <= i <= n,
                forall|k: int|
                    0 <= k < i ==> !((#[trigger] store.test_questions@[k]).uuid == uuid
                        && store.test_questions@[k].test_paper_id == test_paper_id),
            decreases n - i,
        {
            let q = &store.test_questions[i];
            if q.uuid == uuid && q.test_paper_id == test_paper_id {
                proof {
                    lemma_first_idx_at(
                        store.test_questions@,
                        by_q_uuid_paper(uuid, test_paper_id),
                        i as int,
                    );
                }
                return Ok(store.test_questions[i].clone());
            }
            i = i + 1;
        }
        proof {
            lemma_first_idx(store.test_questions@, by_q_uuid_paper(uuid, test_paper_id));
        }
        Err(Error::NotFound)
    }

    /// Counts the questions of one paper.
    pub fn count_questions_for_paper(test_paper_id: i32, store: &Store) -> (r: i32)
        requires
            store.wf(),
        ensures
            r == store.test_questions@.filter(by_q_paper(test_paper_id)).len(),
    {
        let n = store.test_questions.len();
        let mut count: usize = 0;
        let mut i: usize = 0;
        while i < n
            invariant
                store.wf(),
                n == store.test_questions@.len(),
                0 <= i <= n,
                count == store.test_questions@.take(i as int).filter(
                    by_q_paper(test_paper_id),
                ).len(),
                count <= i,
            decreases n - i,
        {
            proof {
                reveal(Seq::filter);
                assert(store.test_questions@.take(i + 1).drop_last() =~= store.test_questions@.take(
                    i as int,
                ));
                assert(store.test_questions@.take(i + 1).last() == store.test_questions@[i as int]);
                store.test_questions@.take(i + 1).lemma_filter_len(by_q_paper(test_paper_id));
            }
            if store.test_questions[i].test_paper_id == test_paper_id {
                count = count + 1;
            }
            i = i + 1;
        }
        proof {
            assert(store.test_questions@.take(n as int) =~= store.test_questions@);
            lemma_increasing_len(
                store.test_questions@,
                question_id(),
                1,
                store.next_id as int,
            );
        }
        count as i32
    }

    /// Deletes the listed questions of one paper. All of them must exist,
    /// each named once: otherwise nothing at all is deleted.
    pub fn delete_multiple(vec: &Vec<u128>, test_paper_id: i32, store: &mut Store) -> (r: Result<
        (),
        Error,
    >)
        requires
            old(store).wf(),
        ensures
            final(store).wf(),
            spec_questions_removed(
                old(store).test_questions@,
                final(store).test_questions@,
                vec@,
                test_paper_id,
                r,
            ),
            final(store).users == old(store).users,
            final(store).test_papers == old(store).test_papers,
            final(store).question_options == old(store).question_options,
            final(store).test_schedules == old(store).test_schedules,
            final(store).test_rooms == old(store).test_rooms,
            final(store).test_attempts == old(store).test_attempts,
            final(store).test_subscriptions == old(store).test_subscriptions,
            final(store).question_answers == old(store).question_answers,
            final(store).next_id == old(store).next_id,
            r is Err ==> final(store).test_questions == old(store).test_questions,
    {
        let n = store.test_questions.len();
        let ghost keep = |q: TestQuestion|
            !(q.test_paper_id == test_paper_id && vec@.contains(q.uuid));
        let mut kept: Vec<TestQuestion> = Vec::new();
        let mut removed: usize = 0;
        let mut i: usize = 0;
        while i < n
            invariant
                *store == *old(store),
                n == store.test_questions@.len(),
                0 <= i <= n,
                keep == (|q: TestQuestion|
                    !(q.test_paper_id == test_paper_id && vec@.contains(q.uuid))),
                kept@ == store.test_questions@.take(i as int).filter(keep),
                removed == i - kept@.len(),
            decreases n - i,
        {
            proof {
                reveal(Seq::filter);
                assert(store.test_questions@.take(i + 1).drop_last() =~= store.test_questions@.take(
                    i as int,
                ));
                assert(store.test_questions@.take(i + 1).last() == store.test_questions@[i as int]);
                store.test_questions@.take(i + 1).lemma_filter_len(keep);
            }
            let q = &store.test_questions[i];
            if q.test_paper_id == test_paper_id && crate::question_option::uuid_in_list(
                vec,
                q.uuid,
            ) {
                removed = removed + 1;
            } else {
                kept.push(store.test_questions[i].clone());
            }
            i = i + 1;
        }
        proof {
            assert(store.test_questions@.take(n as int) =~= store.test_questions@);
        }
        if removed != vec.len() {
            return Err(Error::NotFound);
        }
        proof {
            lemma_filter_increasing(store.test_questions@, question_id(), keep);
            lemma_filter_increasing(store.test_questions@, question_uuid(), keep);
        }
        store.test_questions = kept;
        Ok(())
    }
}

/// What deleting a list of questions does to the questions table: when
/// exactly as many rows match as uuids were named, those rows leave and
/// everything else stays; otherwise the table is untouched.
pub open spec fn spec_questions_removed(
    pre: Seq<TestQuestion>,
    post: Seq<TestQuestion>,
    uuids: Seq<u128>,
    paper: i32,
    r: Result<(), Error>,
) -> bool {
    let keep = |q: TestQuestion| !(q.test_paper_id == paper && uuids.contains(q.uuid));
    let kept = pre.filter(keep);
    if pre.len() - kept.len() == uuids.len() {
        r == Ok::<(), Error>(()) && post == kept
    } else {
        r == Err::<(), Error>(Error::NotFound) && post == pre
    }
}

/// A type to create a new test question with its options.
pub struct TestQuestionForm {
    pub question: String,
    pub options: Vec<QuestionOptionForm>,
}

/// How many option rows the first `k` question forms bring along.
pub open spec fn opts_before(forms: Seq<TestQuestionForm>, k: int) -> int
    decreases k,
{
    if k <= 0 {
        0
    } else {
        opts_before(forms, k - 1) + forms[k - 1].options@.len()
    }
}

/// The option counts accumulate monotonically.
proof fn lemma_opts_before_mono(forms: Seq<TestQuestionForm>, k: int, m: int)
    requires
        0 <= k <= m,
    ensures
        opts_before(forms, k) <= opts_before(forms, m),
    decreases m - k,
{
    if k < m {
        lemma_opts_before_mono(forms, k + 1, m);
    }
}

/// The option counts never go negative.
proof fn lemma_opts_before_nonneg(forms: Seq<TestQuestionForm>, k: int)
    ensures
        opts_before(forms, k) >= 0,
    decreases k,
{
    if k > 0 {
        lemma_opts_before_nonneg(forms, k - 1);
    }
}

/// How many fresh row ids inserting these question forms takes: one per
/// question and one per option.
pub open spec fn questions_ids_needed(forms: Seq<TestQuestionForm>) -> int {
    forms.len() + opts_before(forms, forms.len() as int)
}

/// The id count never goes negative.
pub proof fn lemma_questions_ids_needed_nonneg(forms: Seq<TestQuestionForm>)
    ensures
        questions_ids_needed(forms) >= 0,
{
    lemma_opts_before_nonneg(forms, forms.len() as int);
}

/// What inserting a batch of question forms does on success: each form
/// becomes one question row followed by its option rows, appended in
/// order, with ids and uuids drawn in sequence from the id counter.
pub open spec fn spec_questions_inserted(
    q0: Seq<TestQuestion>,
    o0: Seq<QuestionOption>,
    id0: int,
    q1: Seq<TestQuestion>,
    o1: Seq<QuestionOption>,
    id1: int,
    forms: Seq<TestQuestionForm>,
    paper: i32,
) -> bool {
    let bq = q0.len() as int;
    let bo = o0.len() as int;
    &&& q1.len() == bq + forms.len()
    &&& forall|k: int| 0 <= k < bq ==> q1[k] == #[trigger] q0[k]
    &&& forall|k: int|
        0 <= k < forms.len() ==> {
            let q = #[trigger] q1[bq + k];
            &&& q.question == forms[k].question
            &&& q.test_paper_id == paper
            &&& q.id == id0 + k + opts_before(forms, k)
            &&& q.uuid == (id0 + k + opts_before(forms, k)) as u128
        }
    &&& o1.len() == bo + opts_before(forms, forms.len() as int)
    &&& forall|k: int| 0 <= k < bo ==> o1[k] == #[trigger] o0[k]
    &&& forall|k: int, j: int|
        0 <= k < forms.len() && 0 <= j < forms[k].options@.len() ==> {
            let o = #[trigger] o1[bo + opts_before(forms, k) + j];
            let qid = id0 + k + opts_before(forms, k);
            &&& o.option == forms[k].options@[j].option
            &&& o.is_correct == forms[k].options@[j].is_correct
            &&& o.test_question_id == qid
            &&& o.id == qid + 1 + j
            &&& o.uuid == (qid + 1 + j) as u128
        }
    &&& id1 == id0 + questions_ids_needed(forms)
}

/// Copies a vector of option forms, preserving its contents.
fn clone_option_forms(v: &Vec<QuestionOptionForm>) -> (r: Vec<QuestionOptionForm>)
    ensures
        r@ == v@,
{
    let r = v.clone();
    proof {
        assert forall|i: int| 0 <= i < v@.len() implies r@[i] == v@[i] by {
            assert(cloned::<QuestionOptionForm>(v@[i], r@[i]));
        }
        assert(r@ =~= v@);
    }
    r
}

impl TestQuestionForm {
    /// Inserts one question row per form, each followed by its option
    /// rows. Refused as a whole, with nothing written, when fewer row ids
    /// are left than the forms need.
    pub fn save_multiple(vec: Vec<TestQuestionForm>, test_paper_id: i32, store: &mut Store) -> (r:
        Result<(), Error>)
        requires
            old(store).wf(),
        ensures
            final(store).wf(),
            if old(store).ids_left() >= questions_ids_needed(vec@) {
                r == Ok::<(), Error>(()) && spec_questions_inserted(
                    old(store).test_questions@,
                    old(store).question_options@,
                    old(store).next_id as int,
                    final(store).test_questions@,
                    final(store).question_options@,
                    final(store).next_id as int,
                    vec@,
                    test_paper_id,
                )
            } else {
                r == Err::<(), Error>(Error::Internal) && *final(store) == *old(store)
            },
            final(store).users == old(store).users,
            final(store).test_papers == old(store).test_papers,
            final(store).test_schedules == old(store).test_schedules,
            final(store).test_rooms == old(store).test_rooms,
            final(store).test_attempts == old(store).test_attempts,
            final(store).test_subscriptions == old(store).test_subscriptions,
            final(store).question_answers == old(store).question_answers,
            r is Err ==> *final(store) == *old(store),
    {
        let n = vec.len();
        let limit = (i32::MAX - store.next_id) as usize;
        // Count the rows these forms need, stopping once the count can no
        // longer fit.
        let mut needed: usize = n;
        if needed > limit {
            proof {
                lemma_opts_before_nonneg(vec@, n as int);
            }
            return Err(Error::Internal);
        }
        let mut i: usize = 0;
        while i < n
            invariant
                *store == *old(store),
                old(store).wf(),
                n == vec@.len(),
                0 <= i <= n,
                limit == old(store).ids_left(),
                needed == n + opts_before(vec@, i as int),
                needed <= limit,
            decreases n - i,
        {
            let extra = vec[i].options.len();
            if extra > limit - needed {
                proof {
                    lemma_opts_before_mono(vec@, i + 1, n as int);
                }
                return Err(Error::Internal);
            }
            needed = needed + extra;
            i = i + 1;
        }

        let ghost base_q = store.test_questions@.len() as int;
        let ghost base_o = store.question_options@.len() as int;
        let ghost base_id = store.next_id as int;
        let mut k: usize = 0;
        while k < n
            invariant
                old(store).wf(),
                store.wf(),
                n == vec@.len(),
                0 <= k <= n,
                base_q == old(store).test_questions@.len() as int,
                base_o == old(store).question_options@.len() as int,
                base_id == old(store).next_id as int,
                old(store).ids_left() >= questions_ids_needed(vec@),
                store.next_id == base_id + k + opts_before(vec@, k as int),
                store.test_questions@.len() == base_q + k,
                forall|j: int|
                    0 <= j < base_q ==> store.test_questions@[j] == #[trigger] old(
                        store,
                    ).test_questions@[j],
                forall|j: int|
                    0 <= j < k ==> {
                        let q = #[trigger] store.test_questions@[base_q + j];
                        &&& q.question == vec@[j].question
                        &&& q.test_paper_id == test_paper_id
                        &&& q.id == base_id + j + opts_before(vec@, j)
                        &&& q.uuid == (base_id + j + opts_before(vec@, j)) as u128
                    },
                store.question_options@.len() == base_o + opts_before(vec@, k as int),
                forall|j: int|
                    0 <= j < base_o ==> store.question_options@[j] == #[trigger] old(
                        store,
                    ).question_options@[j],
                forall|m: int, j: int|
                    0 <= m < k && 0 <= j < vec@[m].options@.len() ==> {
                        let o = #[trigger] store.question_options@[base_o + opts_before(vec@, m)
                            + j];
                        let qid = base_id + m + opts_before(vec@, m);
                        &&& o.option == vec@[m].options@[j].option
                        &&& o.is_correct == vec@[m].options@[j].is_correct
                        &&& o.test_question_id == qid
                        &&& o.id == qid + 1 + j
                        &&& o.uuid == (qid + 1 + j) as u128
                    },
                store.users == old(store).users,
                store.test_papers == old(store).test_papers,
                store.test_schedules == old(store).test_schedules,
                store.test_rooms == old(store).test_rooms,
                store.test_attempts == old(store).test_attempts,
                store.test_subscriptions == old(store).test_subscriptions,
                store.question_answers == old(store).question_answers,
            decreases n - k,
        {
            proof {
                lemma_opts_before_mono(vec@, k + 1, n as int);
                lemma_opts_before_nonneg(vec@, k as int);
            }
            let (id, uuid) = store.fresh_ids();
            let row = TestQuestion {
                id,
                uuid,
                question: vec[k].question.clone(),
                test_paper_id,
            };
            proof {
                lemma_push_fresh(store.test_questions@, question_id(), row.id as int, row);
                lemma_push_fresh(store.test_questions@, question_uuid(), row.id as int, row);
            }
            store.test_questions.push(row);
            let ghost mid = *store;
            let options = clone_option_forms(&vec[k].options);
            let saved = QuestionOptionForm::save_multiple(options, id, store);
            proof {
                assert(saved is Ok);
                lemma_opts_before_nonneg(vec@, k as int);
                assert forall|m: int, j: int|
                    0 <= m < k + 1 && 0 <= j < vec@[m].options@.len() implies {
                    let o = #[trigger] store.question_options@[base_o + opts_before(vec@, m) + j];
                    let qid = base_id + m + opts_before(vec@, m);
                    &&& o.option == vec@[m].options@[j].option
                    &&& o.is_correct == vec@[m].options@[j].is_correct
                    &&& o.test_question_id == qid
                    &&& o.id == qid + 1 + j
                    &&& o.uuid == (qid + 1 + j) as u128
                } by {
                    lemma_opts_before_nonneg(vec@, m as int);
                    if m < k {
                        lemma_opts_before_mono(vec@, m + 1, k as int);
                        let idx = base_o + opts_before(vec@, m) + j;
                        assert(idx < mid.question_options@.len());
                        assert(store.question_options@[idx] == mid.question_options@[idx]);
                    } else {
                        let idx = base_o + opts_before(vec@, k as int) + j;
                        assert(idx == mid.question_options@.len() + j);
                        assert(store.question_options@[idx] == store.question_options@[
                            mid.question_options@.len() + j]);
                    }
                }
            }
            k = k + 1;
        }
        Ok(())
    }
}

/// How many new option rows a batch of question updates brings along.
pub open spec fn new_opts_total(ups: Seq<TestQuestionUpdate>) -> int
    decreases ups.len(),
{
    if ups.len() == 0 {
        0
    } else {
        new_opts_total(ups.drop_last()) + ups.last().options.new@.len()
    }
}

/// The count never goes negative.
proof fn lemma_new_opts_total_nonneg(ups: Seq<TestQuestionUpdate>)
    ensures
        new_opts_total(ups) >= 0,
    decreases ups.len(),
{
    if ups.len() > 0 {
        lemma_new_opts_total_nonneg(ups.drop_last());
    }
}

/// One more update adds exactly its own new options to the count.
proof fn lemma_new_opts_total_take(ups: Seq<TestQuestionUpdate>, k: int)
    requires
        0 <= k < ups.len(),
    ensures
        new_opts_total(ups.take(k + 1)) == new_opts_total(ups.take(k)) + ups[k].options.new@.len(),
{
    assert(ups.take(k + 1).drop_last() =~= ups.take(k));
    assert(ups.take(k + 1).last() == ups[k]);
}

/// A prefix never counts more than the whole batch.
proof fn lemma_new_opts_total_prefix(ups: Seq<TestQuestionUpdate>, k: int)
    requires
        0 <= k <= ups.len(),
    ensures
        new_opts_total(ups.take(k)) <= new_opts_total(ups),
    decreases ups.len() - k,
{
    if k == ups.len() {
        assert(ups.take(k) =~= ups);
    } else {
        lemma_new_opts_total_take(ups, k);
        lemma_new_opts_total_prefix(ups, k + 1);
    }
}

/// When a batch of question updates is owed success: every named question
/// exists in the paper, no option update is empty, nothing is removed, and
/// enough fresh row ids are left for the new options.
pub open spec fn spec_q_updates_accepted(
    qs: Seq<TestQuestion>,
    ids_left: int,
    ups: Seq<TestQuestionUpdate>,
    paper: i32,
) -> bool {
    &&& (forall|k: int|
        0 <= k < ups.len() ==> first_idx(qs, by_q_uuid_paper((#[trigger] ups[k]).id, paper)) >= 0)
    &&& (forall|k: int, j: int|
        0 <= k < ups.len() && 0 <= j < ups[k].options.update@.len() ==> !opt_update_empty(
            #[trigger] ups[k].options.update@[j],
        ))
    &&& (forall|k: int| 0 <= k < ups.len() ==> (#[trigger] ups[k]).options.remove@.len() == 0)
    &&& ids_left >= new_opts_total(ups)
}

/// A type to update one test question: a new text, if any, and an update
/// for its options.
pub struct TestQuestionUpdate {
    pub id: u128,
    pub question: Option<String>,
    pub options: QuestionOptionsUpdate,
}

/// What applying one question update does: the question named by uuid
/// within the paper must exist; its text is replaced when one was given,
/// and its options then go through the given options update.
pub open spec fn spec_q_update_one(
    pre: Store,
    post: Store,
    u: TestQuestionUpdate,
    paper: i32,
) -> bool {
    let at = first_idx(pre.test_questions@, by_q_uuid_paper(u.id, paper));
    &&& at >= 0
    &&& ({
        let row = pre.test_questions@[at];
        let patched = TestQuestion {
            id: row.id,
            uuid: row.uuid,
            question: if u.question is Some {
                u.question.unwrap()
            } else {
                row.question
            },
            test_paper_id: row.test_paper_id,
        };
        &&& post.test_questions@ == pre.test_questions@.update(at, patched)
        &&& spec_options_update_outcome(
            pre.question_options@,
            pre.next_id as int,
            post.question_options@,
            post.next_id as int,
            u.options,
            row.id,
            Ok(()),
        )
    })
}

/// A batch of question updates applied in order.
pub open spec fn spec_q_updates_applied(
    pre: Store,
    post: Store,
    ups: Seq<TestQuestionUpdate>,
    paper: i32,
) -> bool
    decreases ups.len(),
{
    if ups.len() == 0 {
        &&& post.test_questions@ == pre.test_questions@
        &&& post.question_options@ == pre.question_options@
        &&& post.next_id == pre.next_id
    } else {
        exists|m: Store|
            #[trigger] spec_q_update_one(pre, m, ups[0], paper) && spec_q_updates_applied(
                m,
                post,
                ups.drop_first(),
                paper,
            )
    }
}

/// Applying a batch extended by one more update is applying the batch,
/// then the one.
proof fn lemma_q_updates_snoc(
    pre: Store,
    mid: Store,
    post: Store,
    ups: Seq<TestQuestionUpdate>,
    u: TestQuestionUpdate,
    paper: i32,
)
    requires
        spec_q_updates_applied(pre, mid, ups, paper),
        spec_q_update_one(mid, post, u, paper),
    ensures
        spec_q_updates_applied(pre, post, ups.push(u), paper),
    decreases ups.len(),
{
    if ups.len() == 0 {
        assert(ups.push(u)[0] == u);
        assert(ups.push(u).drop_first() =~= Seq::<TestQuestionUpdate>::empty());
        assert(spec_q_update_one(pre, post, u, paper));
        assert(spec_q_updates_applied(post, post, Seq::<TestQuestionUpdate>::empty(), paper));
    } else {
        let m = choose|m: Store|
            #[trigger] spec_q_update_one(pre, m, ups[0], paper) && spec_q_updates_applied(
                m,
                mid,
                ups.drop_first(),
                paper,
            );
        lemma_q_updates_snoc(m, mid, post, ups.drop_first(), u, paper);
        assert(ups.push(u)[0] == ups[0]);
        assert(ups.push(u).drop_first() =~= ups.drop_first().push(u));
    }
}

impl TestQuestionUpdate {
    /// Applies each question update in order: the named question's text is
    /// replaced where a new one was given, and its options updated. Meant
    /// to run inside a larger change that commits only when every step
    /// went through.
    pub fn save_multiple(vec: Vec<TestQuestionUpdate>, test_paper_id: i32, store: &mut Store) -> (r:
        Result<(), Error>)
        requires
            old(store).wf(),
        ensures
            final(store).wf(),
            final(store).users == old(store).users,
            final(store).test_papers == old(store).test_papers,
            final(store).test_schedules == old(store).test_schedules,
            final(store).test_rooms == old(store).test_rooms,
            final(store).test_attempts == old(store).test_attempts,
            final(store).test_subscriptions == old(store).test_subscriptions,
            final(store).question_answers == old(store).question_answers,
            final(store).next_id >= old(store).next_id,
            r is Ok ==> spec_q_updates_applied(*old(store), *final(store), vec@, test_paper_id),
            r is Err ==> r == Err::<(), Error>(Error::NotFound) || r == Err::<(), Error>(
                Error::NullUpdate,
            ) || r == Err::<(), Error>(Error::Internal),
            vec@.len() == 0 ==> r is Ok,
            spec_q_updates_accepted(
                old(store).test_questions@,
                old(store).ids_left(),
                vec@,
                test_paper_id,
            ) ==> r is Ok,
    {
        let ghost gvec = vec@;
        let mut remaining = vec;
        let ghost mut done: int = 0;
        while remaining.len() > 0
            invariant
                store.wf(),
                gvec == vec@,
                0 <= done <= gvec.len(),
                remaining@ == gvec.skip(done),
                spec_q_updates_applied(*old(store), *store, gvec.take(done), test_paper_id),
                store.users == old(store).users,
                store.test_papers == old(store).test_papers,
                store.test_schedules == old(store).test_schedules,
                store.test_rooms == old(store).test_rooms,
                store.test_attempts == old(store).test_attempts,
                store.test_subscriptions == old(store).test_subscriptions,
                store.question_answers == old(store).question_answers,
                store.next_id >= old(store).next_id,
                store.next_id == old(store).next_id + new_opts_total(gvec.take(done)),
                store.test_questions@.len() == old(store).test_questions@.len(),
                forall|i: int|
                    0 <= i < store.test_questions@.len() ==> (
                    #[trigger] store.test_questions@[i]).uuid == old(
                        store,
                    ).test_questions@[i].uuid && store.test_questions@[i].test_paper_id == old(
                        store,
                    ).test_questions@[i].test_paper_id,
            decreases remaining@.len(),
        {
            let ghost iter_pre = *store;
            let u = remaining.remove(0);
            proof {
                assert(u == gvec[done]);
                assert(remaining@ =~= gvec.skip(done + 1));
            }
            let n = store.test_questions.len();
            let mut at: usize = 0;
            let mut found = false;
            while at < n && !found
                invariant
                    n == store.test_questions@.len(),
                    0 <= at <= n,
                    u.id == gvec[done].id,
                    0 <= done < gvec.len(),
                    found ==> at < n && store.test_questions@[at as int].uuid == u.id
                        && store.test_questions@[at as int].test_paper_id == test_paper_id,
                    !found ==> forall|k: int|
                        0 <= k < at ==> !((#[trigger] store.test_questions@[k]).uuid == u.id
                            && store.test_questions@[k].test_paper_id == test_paper_id),
                    found ==> forall|k: int|
                        0 <= k < at ==> !((#[trigger] store.test_questions@[k]).uuid == u.id
                            && store.test_questions@[k].test_paper_id == test_paper_id),
                decreases n - at + (if found { 0int } else { 1int }),
            {
                let q = &store.test_questions[at];
                if q.uuid == u.id && q.test_paper_id == test_paper_id {
                    found = true;
                } else {
                    at = at + 1;
                }
            }
            if !found {
                proof {
                    lemma_first_idx(store.test_questions@, by_q_uuid_paper(u.id, test_paper_id));
                    if spec_q_updates_accepted(
                        old(store).test_questions@,
                        old(store).ids_left(),
                        gvec,
                        test_paper_id,
                    ) {
                        assert forall|i: int|
                            0 <= i < store.test_questions@.len() implies by_q_uuid_paper(
                            u.id,
                            test_paper_id,
                        )(#[trigger] store.test_questions@[i]) == by_q_uuid_paper(
                            u.id,
                            test_paper_id,
                        )(#[trigger] old(store).test_questions@[i]) by {}
                        crate::table::lemma_first_idx_pointwise(
                            store.test_questions@,
                            old(store).test_questions@,
                            by_q_uuid_paper(u.id, test_paper_id),
                        );
                        assert(false);
                    }
                }
                return Err(Error::NotFound);
            }
            proof {
                lemma_first_idx_at(
                    store.test_questions@,
                    by_q_uuid_paper(u.id, test_paper_id),
                    at as int,
                );
            }
            let row = store.test_questions[at].clone();
            let qid = row.id;
            let new_row = TestQuestion {
                id: row.id,
                uuid: row.uuid,
                question: match u.question {
                    Some(text) => text,
                    None => row.question,
                },
                test_paper_id: row.test_paper_id,
            };
            proof {
                lemma_update_keeps(
                    store.test_questions@,
                    question_id(),
                    store.next_id as int,
                    at as int,
                    new_row,
                );
                lemma_update_keeps(
                    store.test_questions@,
                    question_uuid(),
                    store.next_id as int,
                    at as int,
                    new_row,
                );
                crate::table::lemma_above_update(
                    store.test_questions@,
                    question_id(),
                    1,
                    at as int,
                    new_row,
                );
                crate::table::lemma_above_update(
                    store.test_questions@,
                    question_uuid(),
                    1,
                    at as int,
                    new_row,
                );
            }
            store.test_questions.set(at, new_row);
            let ghost pre_nid = store.next_id;
            match u.options.save(qid, store) {
                Ok(_) => {},
                Err(e) => {
                    proof {
                        if spec_q_updates_accepted(
                            old(store).test_questions@,
                            old(store).ids_left(),
                            gvec,
                            test_paper_id,
                        ) {
                            lemma_new_opts_total_take(gvec, done);
                            lemma_new_opts_total_prefix(gvec, done + 1);
                            assert(i32::MAX - pre_nid >= gvec[done].options.new@.len());
                            assert(gvec[done].options.remove@.len() == 0);
                            assert forall|j: int|
                                0 <= j < gvec[done].options.update@.len() implies !opt_update_empty(
                                #[trigger] gvec[done].options.update@[j],
                            ) by {}
                            assert(false);
                        }
                    }
                    return Err(e);
                },
            }
            proof {
                lemma_new_opts_total_take(gvec, done);
                assert(spec_q_update_one(iter_pre, *store, gvec[done], test_paper_id));
                lemma_q_updates_snoc(
                    *old(store),
                    iter_pre,
                    *store,
                    gvec.take(done),
                    gvec[done],
                    test_paper_id,
                );
                assert(gvec.take(done + 1) =~= gvec.take(done).push(gvec[done]));
                done = done + 1;
            }
        }
        proof {
            assert(gvec.take(done) =~= gvec);
        }
        Ok(())
    }
}

/// Copies a vector of question rows, preserving its contents.
pub(crate) fn clone_question_rows(v: &Vec<TestQuestion>) -> (r: Vec<TestQuestion>)
    ensures
        r@ == v@,
{
    let r = v.clone();
    proof {
        assert forall|i: int| 0 <= i < v@.len() implies r@[i] == v@[i] by {
            assert(cloned::<TestQuestion>(v@[i], r@[i]));
        }
        assert(r@ =~= v@);
    }
    r
}

/// Copies a vector of option rows, preserving its contents.
pub(crate) fn clone_option_rows(v: &Vec<QuestionOption>) -> (r: Vec<QuestionOption>)
    ensures
        r@ == v@,
{
    let r = v.clone();
    proof {
        assert forall|i: int| 0 <= i < v@.len() implies r@[i] == v@[i] by {
            assert(cloned::<QuestionOption>(v@[i], r@[i]));
        }
        assert(r@ =~= v@);
    }
    r
}

/// A type to update the questions of one paper: new questions, updates to
/// existing ones, and questions to delete.
pub struct TestQuestionsUpdate {
    pub new: Vec<TestQuestionForm>,
    pub update: Vec<TestQuestionUpdate>,
    pub remove: Vec<u128>,
}

/// When a whole questions update is owed success: enough fresh row ids are
/// left for the new questions and options, every update names a question
/// of the paper, no option update is empty, and nothing is removed.
pub open spec fn spec_questions_update_accepted(
    qs: Seq<TestQuestion>,
    ids_left: int,
    upd: TestQuestionsUpdate,
    paper: i32,
) -> bool {
    &&& ids_left >= questions_ids_needed(upd.new@)
    &&& spec_q_updates_accepted(
        qs,
        ids_left - questions_ids_needed(upd.new@),
        upd.update@,
        paper,
    )
    &&& upd.remove@.len() == 0
}

impl TestQuestionsUpdate {
    /// Applies new questions, question updates and question removals for
    /// one paper, in that order, as one transaction: the store changes only
    /// if every step went through, and a refusal leaves it untouched.
    pub fn save(self, test_paper_id: i32, store: &mut Store) -> (r: Result<(), Error>)
        requires
            old(store).wf(),
        ensures
            final(store).wf(),
            final(store).users == old(store).users,
            final(store).test_papers == old(store).test_papers,
            final(store).test_schedules == old(store).test_schedules,
            final(store).test_rooms == old(store).test_rooms,
            final(store).test_attempts == old(store).test_attempts,
            final(store).test_subscriptions == old(store).test_subscriptions,
            final(store).question_answers == old(store).question_answers,
            r is Err ==> *final(store) == *old(store),
            r is Err ==> r == Err::<(), Error>(Error::NotFound) || r == Err::<(), Error>(
                Error::NullUpdate,
            ) || r == Err::<(), Error>(Error::Internal),
            r is Ok ==> exists|s1: Store, s2: Store|
                {
                    &&& #[trigger] spec_questions_inserted(
                        old(store).test_questions@,
                        old(store).question_options@,
                        old(store).next_id as int,
                        s1.test_questions@,
                        s1.question_options@,
                        s1.next_id as int,
                        self.new@,
                        test_paper_id,
                    )
                    &&& #[trigger] spec_q_updates_applied(s1, s2, self.update@, test_paper_id)
                    &&& spec_questions_removed(
                        s2.test_questions@,
                        final(store).test_questions@,
                        self.remove@,
                        test_paper_id,
                        Ok(()),
                    )
                    &&& final(store).question_options@ == s2.question_options@
                    &&& final(store).next_id == s2.next_id
                },
            self.new@.len() == 0 && self.update@.len() == 0 && self.remove@.len() == 0 ==> r is Ok,
            (self.update@.len() == 0 && self.remove@.len() == 0 && old(store).ids_left()
                >= questions_ids_needed(self.new@)) ==> r is Ok,
            spec_questions_update_accepted(
                old(store).test_questions@,
                old(store).ids_left(),
                self,
                test_paper_id,
            ) ==> r is Ok,
    {
        // The whole update runs on a scratch copy of the two tables it may
        // touch; only a fully successful run is written back, so a refusal
        // at any step leaves the store untouched.
        let mut scratch = Store {
            users: Vec::new(),
            test_papers: Vec::new(),
            test_questions: clone_question_rows(&store.test_questions),
            question_options: clone_option_rows(&store.question_options),
            test_schedules: Vec::new(),
            test_rooms: Vec::new(),
            test_attempts: Vec::new(),
            test_subscriptions: Vec::new(),
            question_answers: Vec::new(),
            next_id: store.next_id,
        };
        proof {
            assert(scratch.wf());
        }
        match TestQuestionForm::save_multiple(self.new, test_paper_id, &mut scratch) {
            Ok(_) => {},
            Err(e) => {
                proof {
                    if self.new@.len() == 0 {
                        assert(opts_before(self.new@, 0) == 0);
                        assert(questions_ids_needed(self.new@) == 0);
                    }
                }
                return Err(e);
            },
        }
        let ghost g1 = scratch;
        match TestQuestionUpdate::save_multiple(self.update, test_paper_id, &mut scratch) {
            Ok(_) => {},
            Err(e) => {
                proof {
                    if spec_questions_update_accepted(
                        old(store).test_questions@,
                        old(store).ids_left(),
                        self,
                        test_paper_id,
                    ) {
                        assert forall|k: int|
                            0 <= k < self.update@.len() implies first_idx(
                            g1.test_questions@,
                            by_q_uuid_paper((#[trigger] self.update@[k]).id, test_paper_id),
                        ) >= 0 by {
                            let p = by_q_uuid_paper(self.update@[k].id, test_paper_id);
                            lemma_first_idx(old(store).test_questions@, p);
                            let m = first_idx(old(store).test_questions@, p);
                            assert(g1.test_questions@[m] == old(store).test_questions@[m]);
                            lemma_first_idx(g1.test_questions@, p);
                        }
                        assert(spec_q_updates_accepted(
                            g1.test_questions@,
                            g1.ids_left(),
                            self.update@,
                            test_paper_id,
                        ));
                        assert(false);
                    }
                }
                return Err(e);
            },
        }
        let ghost g2 = scratch;
        match TestQuestion::delete_multiple(&self.remove, test_paper_id, &mut scratch) {
            Ok(_) => {},
            Err(e) => {
                proof {
                    if self.remove@.len() == 0 {
                        let keep = |q: TestQuestion|
                            !(q.test_paper_id == test_paper_id && self.remove@.contains(q.uuid));
                        crate::table::lemma_filter_all(g2.test_questions@, keep);
                    }
                }
                return Err(e);
            },
        }
        proof {
        lemma_opts_before_nonneg(self.new@, self.new@.len() as int);
        }
        let ghost new_bound = scratch.next_id as int;
        let ghost old_bound = old(store).next_id as int;
        proof {
            crate::table::lemma_below_weaken(
                store.users@,
                crate::store::user_id(),
                old_bound,
                new_bound,
            );
            crate::table::lemma_below_weaken(
                store.users@,
                crate::store::user_uuid(),
                old_bound,
                new_bound,
            );
            crate::table::lemma_below_weaken(
                store.test_papers@,
                crate::store::paper_id(),
                old_bound,
                new_bound,
            );
            crate::table::lemma_below_weaken(
                store.test_papers@,
                crate::store::paper_uuid(),
                old_bound,
                new_bound,
            );
            crate::table::lemma_below_weaken(
                store.test_schedules@,
                crate::store::schedule_id(),
                old_bound,
                new_bound,
            );
            crate::table::lemma_below_weaken(
                store.test_schedules@,
                crate::store::schedule_uuid(),
                old_bound,
                new_bound,
            );
            crate::table::lemma_below_weaken(
                store.test_rooms@,
                crate::store::room_id(),
                old_bound,
                new_bound,
            );
            crate::table::lemma_below_weaken(
                store.test_rooms@,
                crate::store::room_uuid(),
                old_bound,
                new_bound,
            );
            crate::table::lemma_below_weaken(
                store.test_attempts@,
                crate::store::attempt_id(),
                old_bound,
                new_bound,
            );
            crate::table::lemma_below_weaken(
                store.test_attempts@,
                crate::store::attempt_uuid(),
                old_bound,
                new_bound,
            );
            crate::table::lemma_below_weaken(
                store.test_subscriptions@,
                crate::store::subscription_id(),
                old_bound,
                new_bound,
            );
            crate::table::lemma_below_weaken(
                store.test_subscriptions@,
                crate::store::subscription_uuid(),
                old_bound,
                new_bound,
            );
            crate::table::lemma_below_weaken(
                store.question_answers@,
                crate::store::answer_id(),
                old_bound,
                new_bound,
            );
        }
        store.test_questions = scratch.test_questions;
        store.question_options = scratch.question_options;
        store.next_id = scratch.next_id;
        proof {
            assert(spec_q_updates_applied(g1, g2, self.update@, test_paper_id));
        }
        Ok(())
    }
}

} // verus!
