use paryxa::errors::Error;
use paryxa::field_update::FieldUpdate;
use paryxa::question_option::{
    QuestionOption, QuestionOptionForm, QuestionOptionUpdate, QuestionOptionsUpdate,
};
use paryxa::store::Store;
use paryxa::test_paper::{TestPaper, TestPaperForm, TestPaperUpdate, TestType};
use paryxa::test_question::{TestQuestion, TestQuestionForm, TestQuestionUpdate, TestQuestionsUpdate};

fn option_form(text: &str, correct: Option<bool>) -> QuestionOptionForm {
    QuestionOptionForm {
        option: text.to_string(),
        is_correct: correct,
    }
}

fn question_form(text: &str, options: Vec<QuestionOptionForm>) -> TestQuestionForm {
    TestQuestionForm {
        question: text.to_string(),
        options,
    }
}

fn empty_questions_update() -> TestQuestionsUpdate {
    TestQuestionsUpdate {
        new: Vec::new(),
        update: Vec::new(),
        remove: Vec::new(),
    }
}

fn paper_with_two_questions(store: &mut Store) -> TestPaper {
    TestPaperForm {
        name: "Algebra".to_string(),
        description: Some("First steps".to_string()),
        type_: TestType::FreeForm,
        questions: vec![
            question_form(
                "1 + 1?",
                vec![
                    option_form("1", Some(false)),
                    option_form("2", Some(true)),
                    option_form("3", None),
                ],
            ),
            question_form(
                "2 * 3?",
                vec![
                    option_form("5", Some(false)),
                    option_form("6", Some(true)),
                    option_form("7", Some(false)),
                ],
            ),
        ],
    }
    .save(store)
    .expect("the paper should be created")
}

#[test]
fn creating_a_paper_inserts_every_row() {
    let mut store = Store::new();
    let paper = paper_with_two_questions(&mut store);

    assert_eq!(paper.name, "Algebra");
    assert_eq!(store.test_papers.len(), 1);

    let questions = TestQuestion::find_all(paper.id, &store);
    assert_eq!(questions.len(), 2);
    for q in &questions {
        let options = QuestionOption::find_all(q.id, &store);
        assert_eq!(options.len(), 3);
    }
    assert_eq!(
        TestQuestion::count_questions_for_paper(paper.id, &store),
        2
    );
}

#[test]
fn creation_is_all_or_nothing_when_ids_run_out() {
    let mut store = Store::new();
    // Leave too few fresh ids for one paper, two questions and six options.
    store.next_id = i32::MAX - 3;

    let r = TestPaperForm {
        name: "Algebra".to_string(),
        description: None,
        type_: TestType::Scheduled,
        questions: vec![
            question_form("q1", vec![option_form("a", None), option_form("b", None)]),
            question_form("q2", vec![option_form("c", None)]),
        ],
    }
    .save(&mut store);

    assert_eq!(r.unwrap_err(), Error::Internal);
    assert_eq!(store.test_papers.len(), 0, "no row may appear");
    assert_eq!(store.test_questions.len(), 0);
    assert_eq!(store.question_options.len(), 0);
}

#[test]
fn finds_and_deletes_papers() {
    let mut store = Store::new();
    let paper = paper_with_two_questions(&mut store);

    assert_eq!(TestPaper::find(paper.id, &store).unwrap().uuid, paper.uuid);
    assert_eq!(
        TestPaper::find_by_uuid(paper.uuid, &store).unwrap().id,
        paper.id
    );
    assert_eq!(TestPaper::find_all(&store).len(), 1);
    assert_eq!(
        TestPaper::find_by_uuid(9999, &store).unwrap_err(),
        Error::NotFound
    );

    let removed = TestPaper::delete_by_uuid(paper.uuid, &mut store).unwrap();
    assert_eq!(removed.id, paper.id);
    assert_eq!(TestPaper::find_all(&store).len(), 0);
    assert_eq!(
        TestPaper::delete_by_uuid(paper.uuid, &mut store).unwrap_err(),
        Error::NotFound
    );
}

#[test]
fn question_lookup_is_scoped_to_its_paper() {
    let mut store = Store::new();
    let paper = paper_with_two_questions(&mut store);
    let questions = TestQuestion::find_all(paper.id, &store);
    let q = &questions[0];

    assert_eq!(
        TestQuestion::find_by_uuid_for_test_paper(q.uuid, paper.id, &store)
            .unwrap()
            .id,
        q.id
    );
    assert_eq!(
        TestQuestion::find_by_uuid_for_test_paper(q.uuid, paper.id + 1, &store).unwrap_err(),
        Error::NotFound
    );
    assert_eq!(TestQuestion::find(q.id, &store).unwrap().uuid, q.uuid);
}

#[test]
fn option_lookup_is_scoped_to_its_question() {
    let mut store = Store::new();
    let paper = paper_with_two_questions(&mut store);
    let q = TestQuestion::find_all(paper.id, &store)[0].clone();
    let o = QuestionOption::find_all(q.id, &store)[1].clone();

    assert_eq!(o.option, "2");
    assert_eq!(o.is_correct, Some(true));
    assert_eq!(
        QuestionOption::find_by_uuid_for_test_question(o.uuid, q.id, &store)
            .unwrap()
            .id,
        o.id
    );
    assert_eq!(
        QuestionOption::find_by_uuid_for_test_question(o.uuid, q.id + 1, &store).unwrap_err(),
        Error::NotFound
    );
    assert_eq!(QuestionOption::find(o.id, &store).unwrap().uuid, o.uuid);
}

#[test]
fn paper_update_patches_columns_and_questions() {
    let mut store = Store::new();
    let paper = paper_with_two_questions(&mut store);
    let old_questions = TestQuestion::find_all(paper.id, &store);
    let gone = old_questions[1].clone();

    let updated = TestPaperUpdate {
        id: paper.uuid,
        name: Some("Algebra II".to_string()),
        description: FieldUpdate::SetNull,
        type_: Some(TestType::Scheduled),
        questions: TestQuestionsUpdate {
            new: vec![question_form("3 - 1?", vec![option_form("2", Some(true))])],
            update: vec![TestQuestionUpdate {
                id: old_questions[0].uuid,
                question: Some("1 + 1 = ?".to_string()),
                options: QuestionOptionsUpdate {
                    new: Vec::new(),
                    update: Vec::new(),
                    remove: Vec::new(),
                },
            }],
            remove: vec![gone.uuid],
        },
    }
    .save(&mut store)
    .expect("the update should go through");

    assert_eq!(updated.name, "Algebra II");
    assert_eq!(updated.description, None);
    assert_eq!(updated.type_, TestType::Scheduled);

    let questions = TestQuestion::find_all(paper.id, &store);
    assert_eq!(questions.len(), 2, "one removed, one added");
    assert_eq!(questions[0].question, "1 + 1 = ?");
    assert_eq!(questions[1].question, "3 - 1?");
    assert!(questions.iter().all(|q| q.uuid != gone.uuid));
}

#[test]
fn paper_update_of_a_missing_paper_is_not_found() {
    let mut store = Store::new();
    let r = TestPaperUpdate {
        id: 4242,
        name: Some("x".to_string()),
        description: FieldUpdate::Unchanged,
        type_: None,
        questions: empty_questions_update(),
    }
    .save(&mut store);
    assert_eq!(r.unwrap_err(), Error::NotFound);
}

#[test]
fn option_updates_patch_text_and_correctness() {
    let mut store = Store::new();
    let paper = paper_with_two_questions(&mut store);
    let q = TestQuestion::find_all(paper.id, &store)[0].clone();
    let o = QuestionOption::find_all(q.id, &store)[2].clone();

    TestPaperUpdate {
        id: paper.uuid,
        name: None,
        description: FieldUpdate::Unchanged,
        type_: None,
        questions: TestQuestionsUpdate {
            new: Vec::new(),
            update: vec![TestQuestionUpdate {
                id: q.uuid,
                question: None,
                options: QuestionOptionsUpdate {
                    new: vec![option_form("4", Some(false))],
                    update: vec![QuestionOptionUpdate {
                        id: o.uuid,
                        option: Some("three".to_string()),
                        is_correct: FieldUpdate::SetTo(false),
                    }],
                    remove: Vec::new(),
                },
            }],
            remove: Vec::new(),
        },
    }
    .save(&mut store)
    .unwrap();

    let options = QuestionOption::find_all(q.id, &store);
    assert_eq!(options.len(), 4);
    let patched = options.iter().find(|x| x.uuid == o.uuid).unwrap();
    assert_eq!(patched.option, "three");
    assert_eq!(patched.is_correct, Some(false));
}

#[test]
fn empty_option_update_is_a_null_update_and_changes_nothing() {
    let mut store = Store::new();
    let paper = paper_with_two_questions(&mut store);
    let q = TestQuestion::find_all(paper.id, &store)[0].clone();
    let options_before = QuestionOption::find_all(q.id, &store).len();

    let r = TestPaperUpdate {
        id: paper.uuid,
        name: Some("renamed".to_string()),
        description: FieldUpdate::Unchanged,
        type_: None,
        questions: TestQuestionsUpdate {
            new: Vec::new(),
            update: vec![TestQuestionUpdate {
                id: q.uuid,
                question: Some("changed?".to_string()),
                options: QuestionOptionsUpdate {
                    new: vec![option_form("extra", None)],
                    update: vec![QuestionOptionUpdate {
                        id: 1,
                        option: None,
                        is_correct: FieldUpdate::Unchanged,
                    }],
                    remove: Vec::new(),
                },
            }],
            remove: Vec::new(),
        },
    }
    .save(&mut store);

    assert_eq!(r.unwrap_err(), Error::NullUpdate);
    let paper_now = TestPaper::find_by_uuid(paper.uuid, &store).unwrap();
    assert_eq!(paper_now.name, "Algebra", "the whole update rolled back");
    assert_eq!(
        TestQuestion::find_all(paper.id, &store)[0].question,
        "1 + 1?"
    );
    assert_eq!(QuestionOption::find_all(q.id, &store).len(), options_before);
}

#[test]
fn removing_a_question_that_does_not_exist_rolls_everything_back() {
    let mut store = Store::new();
    let paper = paper_with_two_questions(&mut store);

    let r = TestPaperUpdate {
        id: paper.uuid,
        name: Some("renamed".to_string()),
        description: FieldUpdate::Unchanged,
        type_: None,
        questions: TestQuestionsUpdate {
            new: vec![question_form("added", vec![])],
            update: Vec::new(),
            remove: vec![987_654],
        },
    }
    .save(&mut store);

    assert_eq!(r.unwrap_err(), Error::NotFound);
    assert_eq!(TestPaper::find_by_uuid(paper.uuid, &store).unwrap().name, "Algebra");
    assert_eq!(TestQuestion::find_all(paper.id, &store).len(), 2);
}

#[test]
fn removing_the_same_option_twice_is_not_found() {
    let mut store = Store::new();
    let paper = paper_with_two_questions(&mut store);
    let q = TestQuestion::find_all(paper.id, &store)[0].clone();
    let o = QuestionOption::find_all(q.id, &store)[0].clone();

    let r = TestPaperUpdate {
        id: paper.uuid,
        name: None,
        description: FieldUpdate::Unchanged,
        type_: None,
        questions: TestQuestionsUpdate {
            new: Vec::new(),
            update: vec![TestQuestionUpdate {
                id: q.uuid,
                question: None,
                options: QuestionOptionsUpdate {
                    new: Vec::new(),
                    update: Vec::new(),
                    remove: vec![o.uuid, o.uuid],
                },
            }],
            remove: Vec::new(),
        },
    }
    .save(&mut store);

    assert_eq!(r.unwrap_err(), Error::NotFound);
    assert_eq!(QuestionOption::find_all(q.id, &store).len(), 3);
}
