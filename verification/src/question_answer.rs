use vstd::prelude::*;

use crate::errors::Error;
use crate::question_option::by_opt_uuid_tq;
use crate::store::{answer_id, Store};
use crate::table::{
    first_idx, lemma_above_update, lemma_first_idx, lemma_first_idx_at, lemma_push_fresh,
    lemma_update_keeps,
};
use crate::test_attempt::by_att_uuid_user;
use crate::test_question::by_q_uuid_paper;

verus! {

/// A row recording which option a user picked for one question within one
/// test attempt.
#[derive(Clone, Copy, Debug)]
pub struct QuestionAnswer {
    pub id: i32,
    pub test_attempt_id: i32,
    pub test_question_id: i32,
    pub answered_option: i32,
}

/// Matches the answer row of one attempt and question.
pub open spec fn by_ans_att_q(att: i32, q: i32) -> spec_fn(QuestionAnswer) -> bool {
    |a: QuestionAnswer| a.test_attempt_id == att && a.test_question_id == q
}

/// Matches the answer rows of one attempt.
pub open spec fn by_ans_att(att: i32) -> spec_fn(QuestionAnswer) -> bool {
    |a: QuestionAnswer| a.test_attempt_id == att
}

impl QuestionAnswer {
    /// Gets the answer a user gave for one question of one attempt, if
    /// any was recorded.
    pub fn find_optionally_for_attempt_and_question(
        test_attempt_id: i32,
        test_question_id: i32,
        store: &Store,
    ) -> (r: Option<QuestionAnswer>)
        ensures
            ({
                let at = first_idx(
                    store.question_answers@,
                    by_ans_att_q(test_attempt_id, test_question_id),
                );
                match r {
                    Some(a) => at >= 0 && a == store.question_answers@[at],
                    None => at == -1,
                }
            }),
    {
        let n = store.question_answers.len();
        let mut i: usize = 0;
        while i < n
            invariant
                n == store.question_answers@.len(),
                0 <= i <= n,
                forall|k: int|
                    0 <= k < i ==> !((#[trigger] store.question_answers@[k]).test_attempt_id
                        == test_attempt_id && store.question_answers@[k].test_question_id
                        == test_question_id),
            decreases n - i,
        {
            let a = &store.question_answers[i];
            if a.test_attempt_id == test_attempt_id && a.test_question_id == test_question_id {
                proof {
                    lemma_first_idx_at(
                        store.question_answers@,
                        by_ans_att_q(test_attempt_id, test_question_id),
                        i as int,
                    );
                }
                return Some(store.question_answers[i]);
            }
            i = i + 1;
        }
        proof {
            lemma_first_idx(
                store.question_answers@,
                by_ans_att_q(test_attempt_id, test_question_id),
            );
        }
        None
    }

    /// Gets all answers of one attempt, in insertion order.
    pub fn find_all(test_attempt_id: i32, store: &Store) -> (r: Vec<QuestionAnswer>)
        ensures
            r@ == store.question_answers@.filter(by_ans_att(test_attempt_id)),
    {
        let n = store.question_answers.len();
        let mut out: Vec<QuestionAnswer> = Vec::new();
        let mut i: usize = 0;
        while i < n
            invariant
                n == store.question_answers@.len(),
                0 <= i <= n,
                out@ == store.question_answers@.take(i as int).filter(by_ans_att(test_attempt_id)),
            decreases n - i,
        {
            proof {
                reveal(Seq::filter);
                assert(store.question_answers@.take(i + 1).drop_last()
                    =~= store.question_answers@.take(i as int));
                assert(store.question_answers@.take(i + 1).last()
                    == store.question_answers@[i as int]);
            }
            if store.question_answers[i].test_attempt_id == test_attempt_id {
                out.push(store.question_answers[i]);
            }
            i = i + 1;
        }
        proof {
            assert(store.question_answers@.take(n as int) =~= store.question_answers@);
        }
        out
    }
}

/// A type to record an answer to a test question: the attempt, question
/// and chosen option, each named by uuid.
#[derive(Clone, Copy)]
pub struct ProvideAnswer {
    pub test_attempt_id: u128,
    pub test_question_id: u128,
    pub answered_option: u128,
}

impl ProvideAnswer {
    /// Records the chosen option for one question within one attempt of
    /// the given user. The attempt must belong to the user, the question
    /// to the attempt's paper, and the option to the question; an answer
    /// already recorded is replaced, else a new row is added.
    pub fn save(self, user_id: i32, store: &mut Store) -> (r: Result<QuestionAnswer, Error>)
        requires
            old(store).wf(),
        ensures
            final(store).wf(),
            ({
                let att_at = first_idx(
                    old(store).test_attempts@,
                    by_att_uuid_user(self.test_attempt_id, user_id),
                );
                let attempt = old(store).test_attempts@[att_at];
                let q_at = first_idx(
                    old(store).test_questions@,
                    by_q_uuid_paper(self.test_question_id, attempt.test_paper_id),
                );
                let question = old(store).test_questions@[q_at];
                let o_at = first_idx(
                    old(store).question_options@,
                    by_opt_uuid_tq(self.answered_option, question.id),
                );
                let opt = old(store).question_options@[o_at];
                if att_at == -1 || (att_at >= 0 && q_at == -1) || (att_at >= 0 && q_at >= 0 && o_at
                    == -1) {
                    r == Err::<QuestionAnswer, Error>(Error::NotFound) && *final(store) == *old(
                        store,
                    )
                } else {
                    let a_at = first_idx(
                        old(store).question_answers@,
                        by_ans_att_q(attempt.id, question.id),
                    );
                    if a_at >= 0 {
                        let a0 = old(store).question_answers@[a_at];
                        let a1 = QuestionAnswer {
                            id: a0.id,
                            test_attempt_id: a0.test_attempt_id,
                            test_question_id: a0.test_question_id,
                            answered_option: opt.id,
                        };
                        &&& r == Ok::<QuestionAnswer, Error>(a1)
                        &&& final(store).question_answers@ == old(store).question_answers@.update(
                            a_at,
                            a1,
                        )
                        &&& final(store).next_id == old(store).next_id
                    } else if old(store).ids_left() == 0 {
                        r == Err::<QuestionAnswer, Error>(Error::Internal) && *final(store)
                            == *old(store)
                    } else {
                        let a1 = QuestionAnswer {
                            id: old(store).next_id,
                            test_attempt_id: attempt.id,
                            test_question_id: question.id,
                            answered_option: opt.id,
                        };
                        &&& r == Ok::<QuestionAnswer, Error>(a1)
                        &&& final(store).question_answers@ == old(store).question_answers@.push(a1)
                        &&& final(store).next_id == old(store).next_id + 1
                    }
                }
            }),
            final(store).users == old(store).users,
            final(store).test_papers == old(store).test_papers,
            final(store).test_questions == old(store).test_questions,
            final(store).question_options == old(store).question_options,
            final(store).test_schedules == old(store).test_schedules,
            final(store).test_rooms == old(store).test_rooms,
            final(store).test_attempts == old(store).test_attempts,
            final(store).test_subscriptions == old(store).test_subscriptions,
    {
        let attempt = match crate::test_attempt::TestAttempt::find_by_uuid_for_user(
            self.test_attempt_id,
            user_id,
            store,
        ) {
            Ok(t) => t,
            Err(e) => {
                return Err(e);
            },
        };
        let question = match crate::test_question::TestQuestion::find_by_uuid_for_test_paper(
            self.test_question_id,
            attempt.test_paper_id,
            store,
        ) {
            Ok(q) => q,
            Err(e) => {
                return Err(e);
            },
        };
        let opt = match crate::question_option::QuestionOption::find_by_uuid_for_test_question(
            self.answered_option,
            question.id,
            store,
        ) {
            Ok(o) => o,
            Err(e) => {
                return Err(e);
            },
        };

        match QuestionAnswer::find_optionally_for_attempt_and_question(
            attempt.id,
            question.id,
            store,
        ) {
            Some(existing_answer) => {
                let n = store.question_answers.len();
                let mut i: usize = 0;
                while i < n
                    invariant
                        *store == *old(store),
                        old(store).wf(),
                        n == store.question_answers@.len(),
                        0 <= i <= n,
                        ({
                            let att_at = first_idx(
                                old(store).test_attempts@,
                                by_att_uuid_user(self.test_attempt_id, user_id),
                            );
                            att_at >= 0 && attempt == old(store).test_attempts@[att_at]
                        }),
                        ({
                            let q_at = first_idx(
                                old(store).test_questions@,
                                by_q_uuid_paper(self.test_question_id, attempt.test_paper_id),
                            );
                            q_at >= 0 && question == old(store).test_questions@[q_at]
                        }),
                        ({
                            let o_at = first_idx(
                                old(store).question_options@,
                                by_opt_uuid_tq(self.answered_option, question.id),
                            );
                            o_at >= 0 && opt == old(store).question_options@[o_at]
                        }),
                        forall|k: int|
                            0 <= k < i ==> !((
                            #[trigger] store.question_answers@[k]).test_attempt_id == attempt.id
                                && store.question_answers@[k].test_question_id == question.id),
                    decreases n - i,
                {
                    let a = &store.question_answers[i];
                    if a.test_attempt_id == attempt.id && a.test_question_id == question.id {
                        proof {
                            lemma_first_idx_at(
                                store.question_answers@,
                                by_ans_att_q(attempt.id, question.id),
                                i as int,
                            );
                        }
                        let a0 = store.question_answers[i];
                        let a1 = QuestionAnswer {
                            id: a0.id,
                            test_attempt_id: a0.test_attempt_id,
                            test_question_id: a0.test_question_id,
                            answered_option: opt.id,
                        };
                        proof {
                            lemma_update_keeps(
                                store.question_answers@,
                                answer_id(),
                                old(store).next_id as int,
                                i as int,
                                a1,
                            );
                            lemma_above_update(
                                store.question_answers@,
                                answer_id(),
                                1,
                                i as int,
                                a1,
                            );
                            let s0 = store.question_answers@;
                            let s1 = s0.update(i as int, a1);
                            assert forall|x: int, y: int| 0 <= x < y < s1.len() implies !((
                            #[trigger] s1[x]).test_attempt_id == (#[trigger] s1[y]).test_attempt_id
                                && s1[x].test_question_id == s1[y].test_question_id) by {
                                if x != i as int {
                                    assert(s1[x] == s0[x]);
                                }
                                if y != i as int {
                                    assert(s1[y] == s0[y]);
                                }
                            }
                        }
                        store.question_answers.set(i, a1);
                        return Ok(a1);
                    }
                    i = i + 1;
                }
                proof {
                    lemma_first_idx(store.question_answers@, by_ans_att_q(attempt.id, question.id));
                }
                Err(Error::Internal)
            },
            None => {
                if store.next_id == i32::MAX {
                    return Err(Error::Internal);
                }
                let (id, _uuid) = store.fresh_ids();
                let row = QuestionAnswer {
                    id,
                    test_attempt_id: attempt.id,
                    test_question_id: question.id,
                    answered_option: opt.id,
                };
                proof {
                    lemma_push_fresh(store.question_answers@, answer_id(), row.id as int, row);
                    lemma_first_idx(store.question_answers@, by_ans_att_q(attempt.id, question.id));
                    let s0 = store.question_answers@;
                    let s1 = s0.push(row);
                    assert forall|x: int, y: int| 0 <= x < y < s1.len() implies !((
                    #[trigger] s1[x]).test_attempt_id == (#[trigger] s1[y]).test_attempt_id
                        && s1[x].test_question_id == s1[y].test_question_id) by {
                        if y < s0.len() {
                            assert(s1[x] == s0[x] && s1[y] == s0[y]);
                        } else {
                            assert(s1[x] == s0[x] && s1[y] == row);
                        }
                    }
                }
                store.question_answers.push(row);
                Ok(row)
            },
        }
    }
}

} // verus!
