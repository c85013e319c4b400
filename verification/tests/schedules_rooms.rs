use paryxa::errors::Error;
use paryxa::question_answer::{ProvideAnswer, QuestionAnswer};
use paryxa::question_option::{QuestionOption, QuestionOptionForm};
use paryxa::store::Store;
use paryxa::test_attempt;
use paryxa::test_paper::{TestPaper, TestPaperForm, TestType};
use paryxa::test_question::{TestQuestion, TestQuestionForm};
use paryxa::test_room;
use paryxa::test_schedule::{TestSchedule, TestScheduleForm, TestScheduleUpdate};
use paryxa::test_subscription::TestSubscription;

fn plain_paper(store: &mut Store) -> TestPaper {
    TestPaperForm {
        name: "Paper".to_string(),
        description: None,
        type_: TestType::Scheduled,
        questions: vec![TestQuestionForm {
            question: "q?".to_string(),
            options: vec![
                QuestionOptionForm {
                    option: "a".to_string(),
                    is_correct: Some(true),
                },
                QuestionOptionForm {
                    option: "b".to_string(),
                    is_correct: Some(false),
                },
            ],
        }],
    }
    .save(store)
    .unwrap()
}

fn schedule_for(store: &mut Store, paper: &TestPaper) -> TestSchedule {
    TestScheduleForm {
        test_paper_id: paper.uuid,
        time: 10_000,
        duration: 3_600,
    }
    .save(store)
    .unwrap()
}

#[test]
fn schedule_creation_links_the_paper() {
    let mut store = Store::new();
    let paper = plain_paper(&mut store);
    let s = schedule_for(&mut store, &paper);
    assert_eq!(s.test_paper_id, paper.id);
    assert_eq!(
        TestSchedule::find_all_for_test_paper(paper.id, &store).len(),
        1
    );
    assert_eq!(TestSchedule::find(s.id, &store).unwrap().uuid, s.uuid);
    assert_eq!(TestSchedule::find_by_uuid(s.uuid, &store).unwrap().id, s.id);
}

#[test]
fn schedule_for_a_missing_paper_is_not_found() {
    let mut store = Store::new();
    let r = TestScheduleForm {
        test_paper_id: 777,
        time: 0,
        duration: 60,
    }
    .save(&mut store);
    assert_eq!(r.unwrap_err(), Error::NotFound);
}

#[test]
fn schedule_update_and_null_update() {
    let mut store = Store::new();
    let paper = plain_paper(&mut store);
    let s = schedule_for(&mut store, &paper);

    let updated = TestScheduleUpdate {
        id: s.uuid,
        time: Some(20_000),
        duration: None,
    }
    .save(&mut store)
    .unwrap();
    assert_eq!(updated.time, 20_000);
    assert_eq!(updated.duration, 3_600);

    let noop = TestScheduleUpdate {
        id: s.uuid,
        time: None,
        duration: None,
    };
    assert_eq!(noop.save(&mut store).unwrap_err(), Error::NullUpdate);

    let missing = TestScheduleUpdate {
        id: 31_337,
        time: Some(1),
        duration: None,
    };
    assert_eq!(missing.save(&mut store).unwrap_err(), Error::NotFound);
}

#[test]
fn schedule_delete_removes_the_row() {
    let mut store = Store::new();
    let paper = plain_paper(&mut store);
    let s = schedule_for(&mut store, &paper);

    let removed = TestSchedule::delete_by_uuid(s.uuid, &mut store).unwrap();
    assert_eq!(removed.id, s.id);
    assert_eq!(
        TestSchedule::delete_by_uuid(s.uuid, &mut store).unwrap_err(),
        Error::NotFound
    );
}

#[test]
fn is_happening_is_open_at_both_ends() {
    let s = TestSchedule {
        id: 1,
        uuid: 1,
        test_paper_id: 1,
        time: 100,
        duration: 50,
    };
    assert!(!s.is_happening(100), "not before it starts");
    assert!(s.is_happening(101));
    assert!(s.is_happening(149));
    assert!(!s.is_happening(150), "not once the duration elapsed");
}

#[test]
fn room_lifecycle_start_leave_finish() {
    let mut store = Store::new();
    let paper = plain_paper(&mut store);
    let s = schedule_for(&mut store, &paper);

    let start = test_room::StartTest {
        test_paper_id: paper.uuid,
        test_schedule_id: s.uuid,
    };
    let room = start.save(42, 11_000, &mut store).unwrap();
    assert_eq!(room.user_id, 42);
    assert_eq!(room.start_time, 11_000);
    assert_eq!(room.finish_time, None);

    let left = test_room::TestRoomPatch::leave(11_500)
        .save(room.uuid, 42, &mut store)
        .unwrap();
    assert_eq!(left.finish_time, Some(11_500));
    assert_eq!(left.has_withdrawn, Some(true));

    let finished = test_room::TestRoomPatch::finish(12_000)
        .save(room.uuid, 42, &mut store)
        .unwrap();
    assert_eq!(finished.finish_time, Some(12_000));
    assert_eq!(finished.has_withdrawn, Some(true), "withdrawal is kept");

    assert_eq!(test_room::TestRoom::find_for_user(42, &store).len(), 1);
    assert_eq!(test_room::TestRoom::find_for_user(7, &store).len(), 0);

    let stranger = test_room::TestRoomPatch::finish(12_500).save(room.uuid, 7, &mut store);
    assert_eq!(
        stranger.unwrap_err(),
        Error::NotFound,
        "another user's room is out of reach"
    );
}

#[test]
fn start_test_with_bad_references_is_not_found() {
    let mut store = Store::new();
    let paper = plain_paper(&mut store);
    let s = schedule_for(&mut store, &paper);

    let bad_paper = test_room::StartTest {
        test_paper_id: 999,
        test_schedule_id: s.uuid,
    };
    assert_eq!(
        bad_paper.save(1, 0, &mut store).unwrap_err(),
        Error::NotFound
    );

    let bad_schedule = test_room::StartTest {
        test_paper_id: paper.uuid,
        test_schedule_id: 999,
    };
    assert_eq!(
        bad_schedule.save(1, 0, &mut store).unwrap_err(),
        Error::NotFound
    );
}

#[test]
fn answers_are_recorded_and_replaced() {
    let mut store = Store::new();
    let paper = plain_paper(&mut store);
    let s = schedule_for(&mut store, &paper);

    let attempt = test_attempt::StartTest {
        test_paper_id: paper.uuid,
        test_schedule_id: s.uuid,
    }
    .save(9, 11_000, &mut store)
    .unwrap();

    let question = TestQuestion::find_all(paper.id, &store)[0].clone();
    let options = QuestionOption::find_all(question.id, &store);

    let first = ProvideAnswer {
        test_attempt_id: attempt.uuid,
        test_question_id: question.uuid,
        answered_option: options[0].uuid,
    }
    .save(9, &mut store)
    .unwrap();
    assert_eq!(first.answered_option, options[0].id);
    assert_eq!(QuestionAnswer::find_all(attempt.id, &store).len(), 1);

    let replaced = ProvideAnswer {
        test_attempt_id: attempt.uuid,
        test_question_id: question.uuid,
        answered_option: options[1].uuid,
    }
    .save(9, &mut store)
    .unwrap();
    assert_eq!(replaced.id, first.id, "the same row is updated in place");
    assert_eq!(replaced.answered_option, options[1].id);
    assert_eq!(QuestionAnswer::find_all(attempt.id, &store).len(), 1);

    let wrong_user = ProvideAnswer {
        test_attempt_id: attempt.uuid,
        test_question_id: question.uuid,
        answered_option: options[0].uuid,
    }
    .save(1, &mut store);
    assert_eq!(wrong_user.unwrap_err(), Error::NotFound);

    assert!(QuestionAnswer::find_optionally_for_attempt_and_question(
        attempt.id,
        question.id,
        &store
    )
    .is_some());
    assert!(QuestionAnswer::find_optionally_for_attempt_and_question(
        attempt.id,
        question.id + 1,
        &store
    )
    .is_none());

    let rooms = test_attempt::TestAttempt::find_for_user(9, &store);
    assert_eq!(rooms.len(), 1);
    assert_eq!(
        test_attempt::TestAttempt::find_by_uuid_for_user(attempt.uuid, 9, &store)
            .unwrap()
            .id,
        attempt.id
    );
}

#[test]
fn attempt_patches_mirror_the_room_patches() {
    let mut store = Store::new();
    let paper = plain_paper(&mut store);
    let s = schedule_for(&mut store, &paper);
    let attempt = test_attempt::StartTest {
        test_paper_id: paper.uuid,
        test_schedule_id: s.uuid,
    }
    .save(3, 500, &mut store)
    .unwrap();

    let left = test_attempt::TestAttemptPatch::leave(600)
        .save(attempt.uuid, 3, &mut store)
        .unwrap();
    assert_eq!(left.finish_time, Some(600));
    assert_eq!(left.has_withdrawn, Some(true));

    let noop = test_attempt::TestAttemptPatch {
        finish_time: None,
        has_withdrawn: None,
    };
    assert_eq!(
        noop.save(attempt.uuid, 3, &mut store).unwrap_err(),
        Error::NullUpdate
    );
}

#[test]
fn subscriptions_filter_by_user() {
    let mut store = Store::new();
    store.test_subscriptions.push(TestSubscription {
        id: 1,
        uuid: 1,
        user_id: 5,
        test_paper_id: 1,
        test_schedule_id: 1,
    });
    store.test_subscriptions.push(TestSubscription {
        id: 2,
        uuid: 2,
        user_id: 6,
        test_paper_id: 1,
        test_schedule_id: 1,
    });
    store.next_id = 3;

    let mine = TestSubscription::find_all_for_user(5, &store);
    assert_eq!(mine.len(), 1);
    assert_eq!(mine[0].id, 1);
    assert_eq!(TestSubscription::find_all_for_user(7, &store).len(), 0);
}
