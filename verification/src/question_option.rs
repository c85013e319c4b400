use vstd::prelude::*;

use crate::errors::Error;
use crate::field_update::{spec_apply, FieldUpdate};
use crate::store::{option_id, option_uuid, Store};
use crate::table::{
    first_idx, lemma_above_update, lemma_filter_increasing, lemma_first_idx, lemma_first_idx_at,
    lemma_push_fresh, lemma_update_keeps,
};

verus! {

/// An option row, belonging to one test question.
#[derive(Debug)]
pub struct QuestionOption {
    pub id: i32,
    pub uuid: u128,
    pub option: String,
    pub test_question_id: i32,
    pub is_correct: Option<bool>,
}

impl Clone for QuestionOption {
    /// Copies the row, preserving every field.
    fn clone(&self) -> (r: QuestionOption)
        ensures
            r == self,
    {
        QuestionOption {
            id: self.id,
            uuid: self.uuid,
            option: self.option.clone(),
            test_question_id: self.test_question_id,
            is_correct: self.is_correct,
        }
    }
}

/// Matches the option row with the given id.
pub open spec fn by_opt_id(id: i32) -> spec_fn(QuestionOption) -> bool {
    |o: QuestionOption| o.id == id
}

/// Matches the option row with the given uuid belonging to the given
/// question.
pub open spec fn by_opt_uuid_tq(uuid: u128, tq: i32) -> spec_fn(QuestionOption) -> bool {
    |o: QuestionOption| o.uuid == uuid && o.test_question_id == tq
}

/// Matches the option rows of one question.
pub open spec fn by_opt_tq(tq: i32) -> spec_fn(QuestionOption) -> bool {
    |o: QuestionOption| o.test_question_id == tq
}

/// Whether a uuid is named in a list.
pub fn uuid_in_list(list: &Vec<u128>, uuid: u128) -> (r: bool)
    ensures
        r == list@.contains(uuid),
{
    let n = list.len();
    let mut i: usize = 0;
    while i < n
        invariant
            n == list@.len(),
            0 <= i <= n,
            forall|k: int| 0 <= k < i ==> list@[k] != uuid,
        decreases n - i,
    {
        if list[i] == uuid {
            return true;
        }
        i = i + 1;
    }
    false
}

impl QuestionOption {
    /// Gets the option with the given id, or reports that none exists.
    pub fn find(id: i32, store: &Store) -> (r: Result<QuestionOption, Error>)
        ensures
            match r {
                Ok(o) => {
                    let at = first_idx(store.question_options@, by_opt_id(id));
                    at >= 0 && o == store.question_options@[at]
                },
                Err(e) => e == Error::NotFound && first_idx(store.question_options@, by_opt_id(id))
                    == -1,
            },
    {
        let n = store.question_options.len();
        let mut i: usize = 0;
        while i < n
            invariant
                n == store.question_options@.len(),
                0 <= i <= n,
                forall|k: int| 0 <= k < i ==> (#[trigger] store.question_options@[k]).id != id,
            decreases n - i,
        {
            if store.question_options[i].id == id {
                proof {
                    lemma_first_idx_at(store.question_options@, by_opt_id(id), i as int);
                }
                return Ok(store.question_options[i].clone());
            }
            i = i + 1;
        }
        proof {
            lemma_first_idx(store.question_options@, by_opt_id(id));
        }
        Err(Error::NotFound)
    }

    /// Gets all options of one question, in insertion order.
    pub fn find_all(test_question_id: i32, store: &Store) -> (r: Vec<QuestionOption>)
        ensures
            r@ == store.question_options@.filter(by_opt_tq(test_question_id)),
    {
        let n = store.question_options.len();
        let mut out: Vec<QuestionOption> = Vec::new();
        let mut i: usize = 0;
        while i < n
            invariant
                n == store.question_options@.len(),
                0 <= i <= n,
                out@ == store.question_options@.take(i as int).filter(by_opt_tq(test_question_id)),
            decreases n - i,
        {
            proof {
                reveal(Seq::filter);
                assert(store.question_options@.take(i + 1).drop_last() =~= store.question_options@.take(
                    i as int,
                ));
                assert(store.question_options@.take(i + 1).last() == store.question_options@[i as int]);
            }
            if store.question_options[i].test_question_id == test_question_id {
                out.push(store.question_options[i].clone());
            }
            i = i + 1;
        }
        proof {
            assert(store.question_options@.take(n as int) =~= store.question_options@);
        }
        out
    }

    /// Gets the option with the given uuid belonging to the given question,
    /// or reports that none exists.
    pub fn find_by_uuid_for_test_question(uuid: u128, test_question_id: i32, store: &Store) -> (r:
        Result<QuestionOption, Error>)
        ensures
            match r {
                Ok(o) => {
                    let at = first_idx(
                        store.question_options@,
                        by_opt_uuid_tq(uuid, test_question_id),
                    );
                    at >= 0 && o == store.question_options@[at]
                },
                Err(e) => e == Error::NotFound && first_idx(
                    store.question_options@,
                    by_opt_uuid_tq(uuid, test_question_id),
                ) == -1,
            },
    {
        let n = store.question_options.len();
        let mut i: usize = 0;
        while i < n
            invariant
                n == store.question_options@.len(),
                0 <= i <= n,
                forall|k: int|
                    0 <= k < i ==> !((#[trigger] store.question_options@[k]).uuid == uuid
                        && store.question_options@[k].test_question_id == test_question_id),
            decreases n - i,
        {
            let o = &store.question_options[i];
            if o.uuid == uuid && o.test_question_id == test_question_id {
                proof {
                    lemma_first_idx_at(
                        store.question_options@,
                        by_opt_uuid_tq(uuid, test_question_id),
                        i as int,
                    );
                }
                return Ok(store.question_options[i].clone());
            }
            i = i + 1;
        }
        proof {
            lemma_first_idx(store.question_options@, by_opt_uuid_tq(uuid, test_question_id));
        }
        Err(Error::NotFound)
    }

    /// Deletes the listed options of one question. All of them must exist,
    /// each named once: otherwise nothing at all is deleted.
    pub fn delete_multiple(vec: &Vec<u128>, test_question_id: i32, store: &mut Store) -> (r: Result<
        (),
        Error,
    >)
        requires
            old(store).wf(),
        ensures
            final(store).wf(),
            spec_options_deleted(
                old(store).question_options@,
                final(store).question_options@,
                vec@,
                test_question_id,
                r,
            ),
            final(store).users == old(store).users,
            final(store).test_papers == old(store).test_papers,
            final(store).test_questions == old(store).test_questions,
            final(store).test_schedules == old(store).test_schedules,
            final(store).test_rooms == old(store).test_rooms,
            final(store).test_attempts == old(store).test_attempts,
            final(store).test_subscriptions == old(store).test_subscriptions,
            final(store).question_answers == old(store).question_answers,
            final(store).next_id == old(store).next_id,
            r is Err ==> *final(store) == *old(store),
    {
        let n = store.question_options.len();
        let ghost keep = |o: QuestionOption|
            !(o.test_question_id == test_question_id && vec@.contains(o.uuid));
        let mut kept: Vec<QuestionOption> = Vec::new();
        let mut removed: usize = 0;
        let mut i: usize = 0;
        while i < n
            invariant
                *store == *old(store),
                n == store.question_options@.len(),
                0 <= i <= n,
                keep == (|o: QuestionOption|
                    !(o.test_question_id == test_question_id && vec@.contains(o.uuid))),
                kept@ == store.question_options@.take(i as int).filter(keep),
                removed == i - kept@.len(),
            decreases n - i,
        {
            proof {
                reveal(Seq::filter);
                assert(store.question_options@.take(i + 1).drop_last() =~= store.question_options@.take(
                    i as int,
                ));
                assert(store.question_options@.take(i + 1).last() == store.question_options@[i as int]);
            }
            let o = &store.question_options[i];
            if o.test_question_id == test_question_id && uuid_in_list(vec, o.uuid) {
                removed = removed + 1;
            } else {
                kept.push(store.question_options[i].clone());
            }
            i = i + 1;
        }
        proof {
            assert(store.question_options@.take(n as int) =~= store.question_options@);
        }
        if removed != vec.len() {
            return Err(Error::NotFound);
        }
        proof {
            lemma_filter_increasing(store.question_options@, option_id(), keep);
            lemma_filter_increasing(store.question_options@, option_uuid(), keep);
        }
        store.question_options = kept;
        Ok(())
    }
}

/// What deleting a list of options does to the options table: when exactly
/// as many rows match as uuids were named, those rows leave and everything
/// else stays; otherwise the table is untouched.
pub open spec fn spec_options_deleted(
    pre: Seq<QuestionOption>,
    post: Seq<QuestionOption>,
    uuids: Seq<u128>,
    tq: i32,
    r: Result<(), Error>,
) -> bool {
    let keep = |o: QuestionOption| !(o.test_question_id == tq && uuids.contains(o.uuid));
    let kept = pre.filter(keep);
    if pre.len() - kept.len() == uuids.len() {
        r == Ok::<(), Error>(()) && post == kept
    } else {
        r == Err::<(), Error>(Error::NotFound) && post == pre
    }
}

/// A type to create a new option for a question.
pub struct QuestionOptionForm {
    pub option: String,
    pub is_correct: Option<bool>,
}

impl Clone for QuestionOptionForm {
    /// Copies the form, preserving both fields.
    fn clone(&self) -> (r: QuestionOptionForm)
        ensures
            r == self,
    {
        QuestionOptionForm { option: self.option.clone(), is_correct: self.is_correct }
    }
}

/// What inserting a batch of option forms does on success: each form
/// becomes one row of the question, appended in order with ids and uuids
/// drawn in sequence from the id counter.
pub open spec fn spec_options_inserted(
    o0: Seq<QuestionOption>,
    id0: int,
    o1: Seq<QuestionOption>,
    id1: int,
    forms: Seq<QuestionOptionForm>,
    tq: i32,
) -> bool {
    let base = o0.len() as int;
    &&& o1.len() == base + forms.len()
    &&& forall|k: int| 0 <= k < base ==> o1[k] == #[trigger] o0[k]
    &&& forall|k: int|
        0 <= k < forms.len() ==> {
            let o = #[trigger] o1[base + k];
            &&& o.option == forms[k].option
            &&& o.is_correct == forms[k].is_correct
            &&& o.test_question_id == tq
            &&& o.id == id0 + k
            &&& o.uuid == (id0 + k) as u128
        }
    &&& id1 == id0 + forms.len()
}

impl QuestionOptionForm {
    /// Inserts one row per form for the given question. Refused as a whole,
    /// with nothing written, when fewer row ids are left than forms given.
    pub fn save_multiple(vec: Vec<QuestionOptionForm>, test_question_id: i32, store: &mut Store) -> (r:
        Result<(), Error>)
        requires
            old(store).wf(),
        ensures
            final(store).wf(),
            if old(store).ids_left() >= vec@.len() {
                r == Ok::<(), Error>(()) && spec_options_inserted(
                    old(store).question_options@,
                    old(store).next_id as int,
                    final(store).question_options@,
                    final(store).next_id as int,
                    vec@,
                    test_question_id,
                )
            } else {
                r == Err::<(), Error>(Error::Internal) && *final(store) == *old(store)
            },
            final(store).users == old(store).users,
            final(store).test_papers == old(store).test_papers,
            final(store).test_questions == old(store).test_questions,
            final(store).test_schedules == old(store).test_schedules,
            final(store).test_rooms == old(store).test_rooms,
            final(store).test_attempts == old(store).test_attempts,
            final(store).test_subscriptions == old(store).test_subscriptions,
            final(store).question_answers == old(store).question_answers,
    {
        let n = vec.len();
        if n > ((i32::MAX - store.next_id) as usize) {
            return Err(Error::Internal);
        }
        let mut i: usize = 0;
        while i < n
            invariant
                old(store).wf(),
                store.wf(),
                n == vec@.len(),
                0 <= i <= n,
                old(store).ids_left() >= n,
                store.next_id == old(store).next_id + i,
                store.question_options@.len() == old(store).question_options@.len() + i,
                forall|k: int|
                    0 <= k < old(store).question_options@.len() ==> store.question_options@[k] == #[trigger] old(
                        store,
                    ).question_options@[k],
                forall|k: int|
                    0 <= k < i ==> {
                        let o = #[trigger] store.question_options@[old(
                            store,
                        ).question_options@.len() + k];
                        &&& o.option == vec@[k].option
                        &&& o.is_correct == vec@[k].is_correct
                        &&& o.test_question_id == test_question_id
                        &&& o.id == old(store).next_id + k
                        &&& o.uuid == (old(store).next_id + k) as u128
                    },
                store.users == old(store).users,
                store.test_papers == old(store).test_papers,
                store.test_questions == old(store).test_questions,
                store.test_schedules == old(store).test_schedules,
                store.test_rooms == old(store).test_rooms,
                store.test_attempts == old(store).test_attempts,
                store.test_subscriptions == old(store).test_subscriptions,
                store.question_answers == old(store).question_answers,
            decreases n - i,
        {
            let (id, uuid) = store.fresh_ids();
            let row = QuestionOption {
                id,
                uuid,
                option: vec[i].option.clone(),
                test_question_id,
                is_correct: vec[i].is_correct,
            };
            proof {
                lemma_push_fresh(
                    store.question_options@,
                    option_id(),
                    row.id as int,
                    row,
                );
                lemma_push_fresh(
                    store.question_options@,
                    option_uuid(),
                    row.id as int,
                    row,
                );
            }
            store.question_options.push(row);
            i = i + 1;
        }
        Ok(())
    }
}

/// A type to update an option of a question: the new text, if any, and a
/// tri-state patch for the nullable correctness flag.
pub struct QuestionOptionUpdate {
    pub id: u128,
    pub option: Option<String>,
    pub is_correct: FieldUpdate<bool>,
}

/// An option update that changes no column at all.
pub open spec fn opt_update_empty(u: QuestionOptionUpdate) -> bool {
    u.option is None && u.is_correct is Unchanged
}

/// The row that applying one option update yields.
pub open spec fn spec_apply_opt_patch(o: QuestionOption, u: QuestionOptionUpdate) -> QuestionOption {
    QuestionOption {
        id: o.id,
        uuid: o.uuid,
        option: if u.option is Some {
            u.option.unwrap()
        } else {
            o.option
        },
        test_question_id: o.test_question_id,
        is_correct: spec_apply(o.is_correct, u.is_correct),
    }
}

/// One option update applied to the table: the row named by uuid within the
/// question is patched; naming a missing row changes nothing.
pub open spec fn spec_apply_opt_update_one(
    s: Seq<QuestionOption>,
    u: QuestionOptionUpdate,
    tq: i32,
) -> Seq<QuestionOption> {
    let at = first_idx(s, by_opt_uuid_tq(u.id, tq));
    if at >= 0 {
        s.update(at, spec_apply_opt_patch(s[at], u))
    } else {
        s
    }
}

/// A batch of option updates applied in order.
pub open spec fn spec_apply_opt_updates(
    s: Seq<QuestionOption>,
    ups: Seq<QuestionOptionUpdate>,
    tq: i32,
) -> Seq<QuestionOption>
    decreases ups.len(),
{
    if ups.len() == 0 {
        s
    } else {
        spec_apply_opt_updates(spec_apply_opt_update_one(s, ups[0], tq), ups.drop_first(), tq)
    }
}

/// Applying a batch extended by one more update is applying the batch, then
/// the one.
proof fn lemma_apply_opt_updates_push(
    s: Seq<QuestionOption>,
    ups: Seq<QuestionOptionUpdate>,
    u: QuestionOptionUpdate,
    tq: i32,
)
    ensures
        spec_apply_opt_updates(s, ups.push(u), tq) == spec_apply_opt_update_one(
            spec_apply_opt_updates(s, ups, tq),
            u,
            tq,
        ),
    decreases ups.len(),
{
    if ups.len() == 0 {
        assert(ups.push(u)[0] == u);
        assert(ups.push(u).drop_first() =~= Seq::<QuestionOptionUpdate>::empty());
        assert(spec_apply_opt_updates(
            spec_apply_opt_update_one(s, u, tq),
            Seq::<QuestionOptionUpdate>::empty(),
            tq,
        ) == spec_apply_opt_update_one(s, u, tq));
    } else {
        assert(ups.push(u)[0] == ups[0]);
        assert(ups.push(u).drop_first() =~= ups.drop_first().push(u));
        lemma_apply_opt_updates_push(
            spec_apply_opt_update_one(s, ups[0], tq),
            ups.drop_first(),
            u,
            tq,
        );
    }
}

impl QuestionOptionUpdate {
    /// Applies each update in order to the options of one question. An
    /// update that changes nothing is refused, and then nothing at all is
    /// written; one that names a missing option is a harmless no-op, as
    /// the store matches zero rows.
    pub fn save_multiple(
        vec: Vec<QuestionOptionUpdate>,
        test_question_id: i32,
        store: &mut Store,
    ) -> (r: Result<(), Error>)
        requires
            old(store).wf(),
        ensures
            final(store).wf(),
            if exists|k: int| 0 <= k < vec@.len() && opt_update_empty(#[trigger] vec@[k]) {
                r == Err::<(), Error>(Error::NullUpdate) && *final(store) == *old(store)
            } else {
                &&& r == Ok::<(), Error>(())
                &&& final(store).question_options@ == spec_apply_opt_updates(
                    old(store).question_options@,
                    vec@,
                    test_question_id,
                )
                &&& final(store).users == old(store).users
                &&& final(store).test_papers == old(store).test_papers
                &&& final(store).test_questions == old(store).test_questions
                &&& final(store).test_schedules == old(store).test_schedules
                &&& final(store).test_rooms == old(store).test_rooms
                &&& final(store).test_attempts == old(store).test_attempts
                &&& final(store).test_subscriptions == old(store).test_subscriptions
                &&& final(store).question_answers == old(store).question_answers
                &&& final(store).next_id == old(store).next_id
            },
    {
        let n = vec.len();
        // Refuse a batch holding an empty update before touching anything.
        let mut i: usize = 0;
        while i < n
            invariant
                *store == *old(store),
                old(store).wf(),
                n == vec@.len(),
                0 <= i <= n,
                forall|k: int| 0 <= k < i ==> !opt_update_empty(#[trigger] vec@[k]),
            decreases n - i,
        {
            let u = &vec[i];
            let empty = match (&u.option, &u.is_correct) {
                (Option::None, FieldUpdate::Unchanged) => true,
                _ => false,
            };
            if empty {
                return Err(Error::NullUpdate);
            }
            i = i + 1;
        }

        let mut i: usize = 0;
        while i < n
            invariant
                old(store).wf(),
                store.wf(),
                n == vec@.len(),
                0 <= i <= n,
                store.question_options@ == spec_apply_opt_updates(
                    old(store).question_options@,
                    vec@.take(i as int),
                    test_question_id,
                ),
                store.users == old(store).users,
                store.test_papers == old(store).test_papers,
                store.test_questions == old(store).test_questions,
                store.test_schedules == old(store).test_schedules,
                store.test_rooms == old(store).test_rooms,
                store.test_attempts == old(store).test_attempts,
                store.test_subscriptions == old(store).test_subscriptions,
                store.question_answers == old(store).question_answers,
                store.next_id == old(store).next_id,
            decreases n - i,
        {
            proof {
                assert(vec@.take(i + 1) =~= vec@.take(i as int).push(vec@[i as int]));
                lemma_apply_opt_updates_push(
                    old(store).question_options@,
                    vec@.take(i as int),
                    vec@[i as int],
                    test_question_id,
                );
            }
            let m = store.question_options.len();
            let mut at: usize = 0;
            let mut found = false;
            while at < m && !found
                invariant
                    m == store.question_options@.len(),
                    0 <= at <= m,
                    i < n,
                    n == vec@.len(),
                    found ==> at < m && store.question_options@[at as int].uuid == vec@[i as int].id
                        && store.question_options@[at as int].test_question_id
                        == test_question_id,
                    !found ==> forall|k: int|
                        0 <= k < at ==> !((#[trigger] store.question_options@[k]).uuid
                            == vec@[i as int].id && store.question_options@[k].test_question_id
                            == test_question_id),
                    found ==> forall|k: int|
                        0 <= k < at ==> !((#[trigger] store.question_options@[k]).uuid
                            == vec@[i as int].id && store.question_options@[k].test_question_id
                            == test_question_id),
                decreases m - at + (if found { 0int } else { 1int }),
            {
                let same = {
                    let o = &store.question_options[at];
                    o.uuid == vec[i].id && o.test_question_id == test_question_id
                };
                if same {
                    found = true;
                } else {
                    at = at + 1;
                }
            }
            if found {
                proof {
                    lemma_first_idx_at(
                        store.question_options@,
                        by_opt_uuid_tq(vec@[i as int].id, test_question_id),
                        at as int,
                    );
                }
                let row = store.question_options[at].clone();
                let upd = &vec[i];
                let new_row = QuestionOption {
                    id: row.id,
                    uuid: row.uuid,
                    option: match &upd.option {
                        Some(text) => text.clone(),
                        None => row.option,
                    },
                    test_question_id: row.test_question_id,
                    is_correct: crate::field_update::apply_field(
                        row.is_correct,
                        match &upd.is_correct {
                            FieldUpdate::Unchanged => FieldUpdate::Unchanged,
                            FieldUpdate::SetTo(b) => FieldUpdate::SetTo(*b),
                            FieldUpdate::SetNull => FieldUpdate::SetNull,
                        },
                    ),
                };
                proof {
                    lemma_update_keeps(
                        store.question_options@,
                        option_id(),
                        store.next_id as int,
                        at as int,
                        new_row,
                    );
                    lemma_update_keeps(
                        store.question_options@,
                        option_uuid(),
                        store.next_id as int,
                        at as int,
                        new_row,
                    );
                    lemma_above_update(store.question_options@, option_id(), 1, at as int, new_row);
                    lemma_above_update(
                        store.question_options@,
                        option_uuid(),
                        1,
                        at as int,
                        new_row,
                    );
                }
                store.question_options.set(at, new_row);
            } else {
                proof {
                    lemma_first_idx(
                        store.question_options@,
                        by_opt_uuid_tq(vec@[i as int].id, test_question_id),
                    );
                }
            }
            i = i + 1;
        }
        proof {
            assert(vec@.take(n as int) =~= vec@);
        }
        Ok(())
    }
}

/// A type to update the options of one question: new options, updates to
/// existing ones, and options to delete.
pub struct QuestionOptionsUpdate {
    pub new: Vec<QuestionOptionForm>,
    pub update: Vec<QuestionOptionUpdate>,
    pub remove: Vec<u128>,
}

/// What an options update does to the options table and the id counter, as
/// three phases with every refusal checked before anything is written: the
/// named options leave, the new options join, and the updates are applied.
/// A refusal leaves the table and the counter exactly as they were.
pub open spec fn spec_options_update_outcome(
    o0: Seq<QuestionOption>,
    id0: int,
    o2: Seq<QuestionOption>,
    id2: int,
    upd: QuestionOptionsUpdate,
    tq: i32,
    r: Result<(), Error>,
) -> bool {
    let keep = |o: QuestionOption| !(o.test_question_id == tq && upd.remove@.contains(o.uuid));
    if i32::MAX - id0 < upd.new@.len() {
        r == Err::<(), Error>(Error::Internal) && o2 == o0 && id2 == id0
    } else if exists|k: int| 0 <= k < upd.update@.len() && opt_update_empty(
        #[trigger] upd.update@[k],
    ) {
        r == Err::<(), Error>(Error::NullUpdate) && o2 == o0 && id2 == id0
    } else if o0.len() - o0.filter(keep).len() != upd.remove@.len() {
        r == Err::<(), Error>(Error::NotFound) && o2 == o0 && id2 == id0
    } else {
        exists|o1: Seq<QuestionOption>|
            {
                &&& #[trigger] spec_options_deleted(o0, o1, upd.remove@, tq, Ok(()))
                &&& r == Ok::<(), Error>(())
                &&& exists|oi: Seq<QuestionOption>|
                    {
                        &&& #[trigger] spec_options_inserted(o1, id0, oi, id2, upd.new@, tq)
                        &&& o2 == spec_apply_opt_updates(oi, upd.update@, tq)
                    }
            }
    }
}

impl QuestionOptionsUpdate {
    /// Applies option removals, new options and option updates for one
    /// question. Every refusal is raised before anything is written, so the
    /// store never holds a partial update.
    pub fn save(self, test_question_id: i32, store: &mut Store) -> (r: Result<(), Error>)
        requires
            old(store).wf(),
        ensures
            final(store).wf(),
            spec_options_update_outcome(
                old(store).question_options@,
                old(store).next_id as int,
                final(store).question_options@,
                final(store).next_id as int,
                self,
                test_question_id,
                r,
            ),
            final(store).users == old(store).users,
            final(store).test_papers == old(store).test_papers,
            final(store).test_questions == old(store).test_questions,
            final(store).test_schedules == old(store).test_schedules,
            final(store).test_rooms == old(store).test_rooms,
            final(store).test_attempts == old(store).test_attempts,
            final(store).test_subscriptions == old(store).test_subscriptions,
            final(store).question_answers == old(store).question_answers,
            r is Err ==> *final(store) == *old(store),
            (i32::MAX - old(store).next_id >= self.new@.len() && (forall|k: int|
                0 <= k < self.update@.len() ==> !opt_update_empty(#[trigger] self.update@[k]))
                && self.remove@.len() == 0) ==> r is Ok,
    {
        // Check everything that a later phase could stumble on, so a
        // refusal never leaves a partial write behind.
        if self.new.len() > ((i32::MAX - store.next_id) as usize) {
            return Err(Error::Internal);
        }
        let n = self.update.len();
        let mut i: usize = 0;
        while i < n
            invariant
                *store == *old(store),
                old(store).wf(),
                old(store).ids_left() >= self.new@.len(),
                n == self.update@.len(),
                0 <= i <= n,
                forall|k: int| 0 <= k < i ==> !opt_update_empty(#[trigger] self.update@[k]),
            decreases n - i,
        {
            let u = &self.update[i];
            let empty = match (&u.option, &u.is_correct) {
                (Option::None, FieldUpdate::Unchanged) => true,
                _ => false,
            };
            if empty {
                return Err(Error::NullUpdate);
            }
            i = i + 1;
        }

        match QuestionOption::delete_multiple(&self.remove, test_question_id, store) {
            Ok(_) => {},
            Err(e) => {
                proof {
                    if self.remove@.len() == 0 {
                        let keep = |o: QuestionOption|
                            !(o.test_question_id == test_question_id && self.remove@.contains(
                                o.uuid,
                            ));
                        crate::table::lemma_filter_all(old(store).question_options@, keep);
                    }
                }
                return Err(e);
            },
        }
        let ghost s1 = *store;
        let r2 = QuestionOptionForm::save_multiple(self.new, test_question_id, store);
        proof {
            assert(r2 is Ok);
        }
        let ghost s2 = *store;
        let r3 = QuestionOptionUpdate::save_multiple(self.update, test_question_id, store);
        proof {
            assert(r3 is Ok);
            assert(spec_options_deleted(
                old(store).question_options@,
                s1.question_options@,
                self.remove@,
                test_question_id,
                Ok(()),
            ));
            assert(spec_options_inserted(
                s1.question_options@,
                old(store).next_id as int,
                s2.question_options@,
                s2.next_id as int,
                self.new@,
                test_question_id,
            ));
        }
        Ok(())
    }
}

} // verus!
