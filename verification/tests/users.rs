use paryxa::errors::Error;
use paryxa::store::Store;
use paryxa::cache::AuthCache;
use paryxa::user::{
    verify_user, Gender, User, UserCredentialsUpdate, UserForm, UserInfoUpdate, UserType,
    UserTypeUpdate,
};

fn create(store: &mut Store, email: &str, password: &str) -> User {
    UserForm {
        email: email.to_string(),
        password: password.to_string(),
    }
    .save(store)
    .expect("user should be created")
}

#[test]
fn first_user_is_admin_and_second_is_normal() {
    let mut store = Store::new();
    let first = create(&mut store, "a@b.com", "pw");
    assert_eq!(first.type_, UserType::Admin);

    let second = create(&mut store, "c@d.com", "pw2");
    assert_eq!(second.type_, UserType::Normal);
}

#[test]
fn duplicate_email_is_not_unique() {
    let mut store = Store::new();
    create(&mut store, "a@b.com", "pw");
    let r = UserForm {
        email: "a@b.com".to_string(),
        password: "other".to_string(),
    }
    .save(&mut store);
    assert_eq!(r.unwrap_err(), Error::NotUnique);
    assert_eq!(store.users.len(), 1);
}

#[test]
fn stored_password_is_a_hash_that_verifies() {
    let mut store = Store::new();
    let user = create(&mut store, "a@b.com", "pw");
    assert_ne!(user.password, "pw", "the plaintext is never stored");
    assert!(bcrypt::verify("pw", &user.password).unwrap());
    let back = verify_user(user, "pw").expect("the password matches");
    assert_eq!(back.email, "a@b.com");
}

#[test]
fn verify_user_rejects_a_wrong_password() {
    let mut store = Store::new();
    let user = create(&mut store, "a@b.com", "pw");
    assert_eq!(
        verify_user(user, "wrong").unwrap_err(),
        Error::IncorrectPassword
    );
}

#[test]
fn finds_by_id_uuid_and_email() {
    let mut store = Store::new();
    let u = create(&mut store, "a@b.com", "pw");

    assert_eq!(User::find(u.id, &store).unwrap().uuid, u.uuid);
    assert_eq!(User::find_by_uuid(u.uuid, &store).unwrap().id, u.id);
    assert_eq!(User::find_by_email("a@b.com", &store).unwrap().id, u.id);
    assert_eq!(User::find(999, &store).unwrap_err(), Error::NotFound);
    assert_eq!(User::find_by_uuid(999, &store).unwrap_err(), Error::NotFound);
    assert_eq!(
        User::find_by_email("x@y.z", &store).unwrap_err(),
        Error::NotFound
    );
}

#[test]
fn exists_any_reports_emptiness() {
    let mut store = Store::new();
    assert!(!User::exists_any(&store));
    create(&mut store, "a@b.com", "pw");
    assert!(User::exists_any(&store));
}

#[test]
fn find_all_without_query_returns_everyone() {
    let mut store = Store::new();
    create(&mut store, "a@b.com", "pw");
    create(&mut store, "c@d.com", "pw");
    let all = User::find_all(None, &store);
    assert_eq!(all.len(), 2);
}

#[test]
fn find_all_matches_email_without_regard_to_case() {
    let mut store = Store::new();
    create(&mut store, "Alice@Example.com", "pw");
    create(&mut store, "bob@elsewhere.net", "pw");

    let hits = User::find_all(Some("alice".to_string()), &store);
    assert_eq!(hits.len(), 1);
    assert_eq!(hits[0].email, "Alice@Example.com");
}

#[test]
fn find_all_matches_names_case_sensitively() {
    let mut store = Store::new();
    let u = create(&mut store, "a@b.com", "pw");
    let info = UserInfoUpdate {
        first_name: Some("Ada".to_string()),
        is_first_name_null: None,
        last_name: None,
        is_last_name_null: None,
        gender: None,
        is_gender_null: None,
        contact: None,
        is_contact_null: None,
    };
    info.save(u.uuid, &mut store).unwrap();

    assert_eq!(User::find_all(Some("Ada".to_string()), &store).len(), 1);
    assert_eq!(User::find_all(Some("ada".to_string()), &store).len(), 0);
}

#[test]
fn info_update_sets_and_nulls_fields_with_null_flag_precedence() {
    let mut store = Store::new();
    let u = create(&mut store, "a@b.com", "pw");

    let set = UserInfoUpdate {
        first_name: Some("Ada".to_string()),
        is_first_name_null: None,
        last_name: Some("Lovelace".to_string()),
        is_last_name_null: Some(false),
        gender: Some(Gender::Female),
        is_gender_null: None,
        contact: Some("123".to_string()),
        is_contact_null: None,
    };
    let saved = set.save(u.uuid, &mut store).unwrap();
    assert_eq!(saved.first_name.as_deref(), Some("Ada"));
    assert_eq!(saved.last_name.as_deref(), Some("Lovelace"));
    assert_eq!(saved.gender, Some(Gender::Female));
    assert_eq!(saved.contact.as_deref(), Some("123"));

    // An explicit null flag wins over a value sent beside it.
    let null_wins = UserInfoUpdate {
        first_name: Some("ignored".to_string()),
        is_first_name_null: Some(true),
        last_name: None,
        is_last_name_null: None,
        gender: None,
        is_gender_null: Some(true),
        contact: None,
        is_contact_null: None,
    };
    let saved = null_wins.save(u.uuid, &mut store).unwrap();
    assert_eq!(saved.first_name, None);
    assert_eq!(saved.last_name.as_deref(), Some("Lovelace"));
    assert_eq!(saved.gender, None);
    assert_eq!(saved.contact.as_deref(), Some("123"));
}

#[test]
fn empty_info_update_is_a_null_update() {
    let mut store = Store::new();
    let u = create(&mut store, "a@b.com", "pw");
    let noop = UserInfoUpdate {
        first_name: None,
        is_first_name_null: None,
        last_name: None,
        is_last_name_null: None,
        gender: None,
        is_gender_null: Some(false),
        contact: None,
        is_contact_null: None,
    };
    assert_eq!(noop.save(u.uuid, &mut store).unwrap_err(), Error::NullUpdate);
}

#[test]
fn sole_admin_cannot_be_demoted() {
    let mut store = Store::new();
    let admin = create(&mut store, "a@b.com", "pw");
    create(&mut store, "c@d.com", "pw");

    let demote = UserTypeUpdate {
        id: admin.uuid,
        type_: Some(UserType::Normal),
    };
    assert_eq!(demote.save(&mut store).unwrap_err(), Error::LastAdmin);
    assert_eq!(
        User::find_by_uuid(admin.uuid, &store).unwrap().type_,
        UserType::Admin,
        "no write happened"
    );
}

#[test]
fn demotion_succeeds_once_another_admin_exists() {
    let mut store = Store::new();
    let first = create(&mut store, "a@b.com", "pw");
    let second = create(&mut store, "c@d.com", "pw");

    UserTypeUpdate {
        id: second.uuid,
        type_: Some(UserType::Admin),
    }
    .save(&mut store)
    .unwrap();

    let demoted = UserTypeUpdate {
        id: first.uuid,
        type_: Some(UserType::Normal),
    }
    .save(&mut store)
    .unwrap();
    assert_eq!(demoted.type_, UserType::Normal);
}

#[test]
fn type_update_without_a_type_is_a_null_update() {
    let mut store = Store::new();
    let u = create(&mut store, "a@b.com", "pw");
    let r = UserTypeUpdate {
        id: u.uuid,
        type_: None,
    }
    .save(&mut store);
    assert_eq!(r.unwrap_err(), Error::NullUpdate);
}

#[test]
fn delete_by_uuid_removes_exactly_that_user() {
    let mut store = Store::new();
    let a = create(&mut store, "a@b.com", "pw");
    let b = create(&mut store, "c@d.com", "pw");

    let gone = User::delete_by_uuid(a.uuid, &mut store).unwrap();
    assert_eq!(gone.id, a.id);
    assert_eq!(store.users.len(), 1);
    assert_eq!(User::find_by_uuid(b.uuid, &store).unwrap().id, b.id);
    assert_eq!(
        User::delete_by_uuid(a.uuid, &mut store).unwrap_err(),
        Error::NotFound
    );
}

#[test]
fn full_name_joins_what_is_present() {
    let mut u = User {
        id: 1,
        uuid: 1,
        first_name: None,
        last_name: None,
        email: "a@b.com".to_string(),
        password: "h".to_string(),
        gender: None,
        contact: None,
        type_: UserType::Normal,
    };
    assert_eq!(u.full_name(), None);
    u.first_name = Some("Ada".to_string());
    assert_eq!(u.full_name().as_deref(), Some("Ada"));
    u.first_name = None;
    u.last_name = Some("Lovelace".to_string());
    assert_eq!(u.full_name().as_deref(), Some("Lovelace"));
    u.first_name = Some("Ada".to_string());
    assert_eq!(u.full_name().as_deref(), Some("Ada Lovelace"));
}

#[test]
fn credentials_update_changes_email_after_password_check() {
    let mut store = Store::new();
    let mut cache = AuthCache::new(4);
    let u = create(&mut store, "a@b.com", "pw");

    let wrong = UserCredentialsUpdate {
        email: Some("new@b.com".to_string()),
        new_password: None,
        password: "bad".to_string(),
    };
    assert_eq!(
        wrong.save(u.uuid, &mut store, &mut cache).unwrap_err(),
        Error::IncorrectPassword
    );
    assert_eq!(User::find_by_uuid(u.uuid, &store).unwrap().email, "a@b.com");

    let right = UserCredentialsUpdate {
        email: Some("new@b.com".to_string()),
        new_password: None,
        password: "pw".to_string(),
    };
    let saved = right.save(u.uuid, &mut store, &mut cache).unwrap();
    assert_eq!(saved.email, "new@b.com");
}

#[test]
fn credentials_update_to_a_taken_email_is_not_unique() {
    let mut store = Store::new();
    let mut cache = AuthCache::new(4);
    let u = create(&mut store, "a@b.com", "pw");
    create(&mut store, "taken@b.com", "pw");

    let clash = UserCredentialsUpdate {
        email: Some("taken@b.com".to_string()),
        new_password: None,
        password: "pw".to_string(),
    };
    assert_eq!(
        clash.save(u.uuid, &mut store, &mut cache).unwrap_err(),
        Error::NotUnique
    );
    assert_eq!(User::find_by_uuid(u.uuid, &store).unwrap().email, "a@b.com");
}

#[test]
fn credentials_update_with_nothing_to_change_is_a_null_update() {
    let mut store = Store::new();
    let mut cache = AuthCache::new(4);
    let u = create(&mut store, "a@b.com", "pw");

    let noop = UserCredentialsUpdate {
        email: None,
        new_password: None,
        password: "pw".to_string(),
    };
    assert_eq!(
        noop.save(u.uuid, &mut store, &mut cache).unwrap_err(),
        Error::NullUpdate
    );
}
