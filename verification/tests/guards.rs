use paryxa::auth::Context;
use paryxa::errors::Error;
use paryxa::user::{User, UserType};

fn user(id: i32, type_: UserType) -> User {
    User {
        id,
        uuid: id as u128,
        first_name: None,
        last_name: None,
        email: format!("u{}@example.com", id),
        password: "not-a-real-hash".to_string(),
        gender: None,
        contact: None,
        type_,
    }
}

#[test]
fn auth_user_rejects_anonymous() {
    let ctx = Context { user: None };
    assert_eq!(ctx.auth_user().unwrap_err(), Error::Unauthorized);
}

#[test]
fn auth_user_accepts_any_identity() {
    let ctx = Context {
        user: Some(user(7, UserType::Normal)),
    };
    assert_eq!(ctx.auth_user().unwrap().id, 7);
}

#[test]
fn admin_only_accepts_admin() {
    let ctx = Context {
        user: Some(user(1, UserType::Admin)),
    };
    assert_eq!(ctx.admin_only().unwrap().id, 1);
}

#[test]
fn admin_only_rejects_normal_user() {
    let ctx = Context {
        user: Some(user(2, UserType::Normal)),
    };
    assert_eq!(ctx.admin_only().unwrap_err(), Error::Unauthorized);
}

#[test]
fn admin_only_rejects_anonymous() {
    let ctx = Context { user: None };
    assert_eq!(ctx.admin_only().unwrap_err(), Error::Unauthorized);
}

#[test]
fn me_only_accepts_matching_id_only() {
    let ctx = Context {
        user: Some(user(5, UserType::Normal)),
    };
    assert_eq!(ctx.me_only(5).unwrap().id, 5);
    assert_eq!(ctx.me_only(6).unwrap_err(), Error::Unauthorized);
}

#[test]
fn me_only_rejects_anonymous() {
    let ctx = Context { user: None };
    assert_eq!(ctx.me_only(1).unwrap_err(), Error::Unauthorized);
}
