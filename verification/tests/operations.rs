use paryxa::auth::Context;
use paryxa::cache::AuthCache;
use paryxa::errors::Error;
use paryxa::gql_schema::{Mutation, Query};
use paryxa::question_option::QuestionOptionForm;
use paryxa::store::Store;
use paryxa::test_paper::{TestPaperForm, TestType};
use paryxa::test_question::TestQuestionForm;
use paryxa::test_schedule::TestScheduleForm;
use paryxa::user::{User, UserForm, UserInfoUpdate, UserType, UserTypeUpdate};

fn new_user(store: &mut Store, email: &str) -> User {
    Mutation::create_user(
        UserForm {
            email: email.to_string(),
            password: "pw".to_string(),
        },
        store,
    )
    .unwrap()
}

fn ctx_of(user: &User) -> Context {
    Context {
        user: Some(user.clone()),
    }
}

fn anonymous() -> Context {
    Context { user: None }
}

fn paper_form() -> TestPaperForm {
    TestPaperForm {
        name: "P".to_string(),
        description: None,
        type_: TestType::FreeForm,
        questions: vec![TestQuestionForm {
            question: "q".to_string(),
            options: vec![QuestionOptionForm {
                option: "o".to_string(),
                is_correct: None,
            }],
        }],
    }
}

#[test]
fn me_returns_the_authenticated_user() {
    let mut store = Store::new();
    let admin = new_user(&mut store, "a@b.com");
    assert_eq!(Query::me(&ctx_of(&admin)).unwrap().id, admin.id);
    assert_eq!(Query::me(&anonymous()).unwrap_err(), Error::Unauthorized);
}

#[test]
fn user_listing_is_admin_only() {
    let mut store = Store::new();
    let admin = new_user(&mut store, "a@b.com");
    let normal = new_user(&mut store, "n@b.com");

    assert_eq!(Query::users(&ctx_of(&admin), None, &store).unwrap().len(), 2);
    assert_eq!(
        Query::users(&ctx_of(&normal), None, &store).unwrap_err(),
        Error::Unauthorized
    );
    assert_eq!(
        Query::user(&ctx_of(&admin), normal.uuid, &store).unwrap().id,
        normal.id
    );
    assert_eq!(
        Query::user(&ctx_of(&normal), admin.uuid, &store).unwrap_err(),
        Error::Unauthorized
    );
}

#[test]
fn papers_are_readable_by_anyone() {
    let mut store = Store::new();
    let admin = new_user(&mut store, "a@b.com");
    let paper = Mutation::create_test_paper(&ctx_of(&admin), paper_form(), &mut store).unwrap();

    assert_eq!(Query::test_papers(&store).unwrap().len(), 1);
    assert_eq!(Query::test_paper(paper.uuid, &store).unwrap().id, paper.id);
}

#[test]
fn paper_mutations_are_admin_only() {
    let mut store = Store::new();
    let admin = new_user(&mut store, "a@b.com");
    let normal = new_user(&mut store, "n@b.com");

    assert_eq!(
        Mutation::create_test_paper(&ctx_of(&normal), paper_form(), &mut store).unwrap_err(),
        Error::Unauthorized
    );
    assert_eq!(store.test_papers.len(), 0);

    let paper = Mutation::create_test_paper(&ctx_of(&admin), paper_form(), &mut store).unwrap();
    assert_eq!(
        Mutation::delete_test_paper(&ctx_of(&normal), paper.uuid, &mut store).unwrap_err(),
        Error::Unauthorized
    );
    assert_eq!(
        Mutation::delete_test_paper(&ctx_of(&admin), paper.uuid, &mut store)
            .unwrap()
            .id,
        paper.id
    );
}

#[test]
fn schedules_are_admin_only() {
    let mut store = Store::new();
    let admin = new_user(&mut store, "a@b.com");
    let normal = new_user(&mut store, "n@b.com");
    let paper = Mutation::create_test_paper(&ctx_of(&admin), paper_form(), &mut store).unwrap();

    let form = TestScheduleForm {
        test_paper_id: paper.uuid,
        time: 100,
        duration: 60,
    };
    assert_eq!(
        Mutation::create_test_schedule(&ctx_of(&normal), form, &mut store).unwrap_err(),
        Error::Unauthorized
    );
    let s = Mutation::create_test_schedule(&ctx_of(&admin), form, &mut store).unwrap();
    assert_eq!(
        Mutation::delete_test_schedule(&ctx_of(&admin), s.uuid, &mut store)
            .unwrap()
            .id,
        s.id
    );
}

#[test]
fn update_me_touches_the_callers_own_row() {
    let mut store = Store::new();
    let user = new_user(&mut store, "a@b.com");
    let info = UserInfoUpdate {
        first_name: Some("Ada".to_string()),
        is_first_name_null: None,
        last_name: None,
        is_last_name_null: None,
        gender: None,
        is_gender_null: None,
        contact: None,
        is_contact_null: None,
    };
    let saved = Mutation::update_me(&ctx_of(&user), info, &mut store).unwrap();
    assert_eq!(saved.uuid, user.uuid);
    assert_eq!(saved.first_name.as_deref(), Some("Ada"));
}

#[test]
fn update_user_type_is_admin_only() {
    let mut store = Store::new();
    let admin = new_user(&mut store, "a@b.com");
    let normal = new_user(&mut store, "n@b.com");

    let promote = UserTypeUpdate {
        id: normal.uuid,
        type_: Some(UserType::Admin),
    };
    assert_eq!(
        Mutation::update_user_type(&ctx_of(&normal), promote, &mut store).unwrap_err(),
        Error::Unauthorized
    );
    let promoted = Mutation::update_user_type(
        &ctx_of(&admin),
        UserTypeUpdate {
            id: normal.uuid,
            type_: Some(UserType::Admin),
        },
        &mut store,
    )
    .unwrap();
    assert_eq!(promoted.type_, UserType::Admin);
}

#[test]
fn delete_me_removes_the_caller() {
    let mut store = Store::new();
    let user = new_user(&mut store, "a@b.com");
    let gone = Mutation::delete_me(&ctx_of(&user), &mut store).unwrap();
    assert_eq!(gone.id, user.id);
    assert_eq!(store.users.len(), 0);
    assert_eq!(
        Mutation::delete_me(&anonymous(), &mut store).unwrap_err(),
        Error::Unauthorized
    );
}

#[test]
fn test_lifecycle_via_mutations() {
    let mut store = Store::new();
    let admin = new_user(&mut store, "a@b.com");
    let paper = Mutation::create_test_paper(&ctx_of(&admin), paper_form(), &mut store).unwrap();
    let schedule = Mutation::create_test_schedule(
        &ctx_of(&admin),
        TestScheduleForm {
            test_paper_id: paper.uuid,
            time: 100,
            duration: 60,
        },
        &mut store,
    )
    .unwrap();

    let room = Mutation::start_test(
        &ctx_of(&admin),
        paryxa::test_room::StartTest {
            test_paper_id: paper.uuid,
            test_schedule_id: schedule.uuid,
        },
        150,
        &mut store,
    )
    .unwrap();
    assert_eq!(room.user_id, admin.id);

    let left = Mutation::leave_test(&ctx_of(&admin), room.uuid, 160, &mut store).unwrap();
    assert_eq!(left.has_withdrawn, Some(true));

    let finished = Mutation::finish_test(&ctx_of(&admin), room.uuid, 170, &mut store).unwrap();
    assert_eq!(finished.finish_time, Some(170));

    assert_eq!(
        Mutation::start_test(
            &anonymous(),
            paryxa::test_room::StartTest {
                test_paper_id: paper.uuid,
                test_schedule_id: schedule.uuid,
            },
            150,
            &mut store,
        )
        .unwrap_err(),
        Error::Unauthorized
    );
}

#[test]
fn update_my_credentials_goes_through_the_guard() {
    let mut store = Store::new();
    let mut cache = AuthCache::new(4);
    let user = new_user(&mut store, "a@b.com");

    let upd = paryxa::user::UserCredentialsUpdate {
        email: Some("new@b.com".to_string()),
        new_password: None,
        password: "pw".to_string(),
    };
    assert_eq!(
        Mutation::update_my_credentials(&anonymous(), upd, &mut store, &mut cache).unwrap_err(),
        Error::Unauthorized
    );

    let upd = paryxa::user::UserCredentialsUpdate {
        email: Some("new@b.com".to_string()),
        new_password: None,
        password: "pw".to_string(),
    };
    let saved =
        Mutation::update_my_credentials(&ctx_of(&user), upd, &mut store, &mut cache).unwrap();
    assert_eq!(saved.email, "new@b.com");
}
