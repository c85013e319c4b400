use paryxa::errors::{error_response_body, Error, FieldError};
use paryxa::field_update::{apply_field, join, FieldUpdate};
use paryxa::strings::{contains_str, contains_str_ci, str_eq};
use paryxa::test_paper::TestType;
use paryxa::user::{Gender, UserType};

#[test]
fn user_type_round_trips_through_its_storage_text() {
    assert_eq!(UserType::Admin.to_sql(), "Admin");
    assert_eq!(UserType::Normal.to_sql(), "Normal");
    assert_eq!(UserType::from_sql("Admin").unwrap(), UserType::Admin);
    assert_eq!(UserType::from_sql("Normal").unwrap(), UserType::Normal);
    assert_eq!(
        UserType::from_sql("Sovereign").unwrap_err(),
        Error::Internal
    );
}

#[test]
fn gender_round_trips_through_its_storage_text() {
    for g in [Gender::Male, Gender::Female, Gender::Other] {
        assert_eq!(Gender::from_sql(g.to_sql()).unwrap(), g);
    }
    assert_eq!(Gender::from_sql("").unwrap_err(), Error::Internal);
}

#[test]
fn test_type_round_trips_through_its_storage_text() {
    for t in [TestType::Scheduled, TestType::FreeForm] {
        assert_eq!(TestType::from_sql(t.to_sql()).unwrap(), t);
    }
    assert_eq!(TestType::from_sql("freeform").unwrap_err(), Error::Internal);
}

#[test]
fn every_error_carries_its_message_and_kind() {
    let cases = [
        (
            Error::NotFound,
            "Could not find the requested resource.",
            "NOT_FOUND",
        ),
        (
            Error::NotUnique,
            "Provided value is not unique.",
            "NOT_UNIQUE",
        ),
        (
            Error::NullUpdate,
            "Tried to update a resource without a value.",
            "NULL_UPDATE",
        ),
        (
            Error::IncorrectPassword,
            "Given password was incorrect.",
            "INCORRECT_PASSWORD",
        ),
        (
            Error::Unauthorized,
            "This is an unauthorized request.",
            "UNAUTHORIZED",
        ),
        (
            Error::LastAdmin,
            "Cannot change the user type of the last admin",
            "LAST_ADMIN",
        ),
        (
            Error::InvalidPayload,
            "Provided data is invalid.",
            "INVALID_DATA",
        ),
        (
            Error::Internal,
            "Something bad happened.",
            "INTERNAL_SERVER_ERROR",
        ),
    ];
    for (e, message, kind) in cases {
        let fe = e.into_field_error();
        assert_eq!(fe.message, message);
        assert_eq!(fe.kind, kind);
    }
}

#[test]
fn unauthorized_response_body_matches_the_wire_format() {
    let body = error_response_body(&Error::Unauthorized.into_field_error());
    assert_eq!(
        body,
        r#"{"data":null,"errors":[{"message":"This is an unauthorized request.","extensions":{"kind":"UNAUTHORIZED"}}]}"#
    );
}

#[test]
fn internal_error_response_body_matches_the_wire_format() {
    let body = error_response_body(&Error::Internal.into_field_error());
    assert_eq!(
        body,
        r#"{"data":null,"errors":[{"message":"Something bad happened.","extensions":{"kind":"INTERNAL_SERVER_ERROR"}}]}"#
    );
}

#[test]
fn response_body_uses_the_given_parts() {
    let body = error_response_body(&FieldError {
        message: "m".to_string(),
        kind: "K".to_string(),
    });
    assert_eq!(
        body,
        r#"{"data":null,"errors":[{"message":"m","extensions":{"kind":"K"}}]}"#
    );
}

#[test]
fn join_lets_the_null_flag_win() {
    assert!(matches!(
        join(Some(5), Some(true)),
        FieldUpdate::SetNull::<i32>
    ));
    assert!(matches!(join(Some(5), Some(false)), FieldUpdate::SetTo(5)));
    assert!(matches!(join(Some(5), None), FieldUpdate::SetTo(5)));
    assert!(matches!(join::<i32>(None, Some(true)), FieldUpdate::SetNull));
    assert!(matches!(
        join::<i32>(None, Some(false)),
        FieldUpdate::Unchanged
    ));
    assert!(matches!(join::<i32>(None, None), FieldUpdate::Unchanged));
}

#[test]
fn apply_field_follows_the_tri_state() {
    assert_eq!(apply_field(Some(1), FieldUpdate::Unchanged), Some(1));
    assert_eq!(apply_field(Some(1), FieldUpdate::SetTo(2)), Some(2));
    assert_eq!(apply_field(Some(1), FieldUpdate::SetNull), None);
    assert_eq!(apply_field(None, FieldUpdate::SetTo(2)), Some(2));
    assert_eq!(apply_field::<i32>(None, FieldUpdate::Unchanged), None);
}

#[test]
fn string_search_behaves_like_like_and_ilike() {
    assert!(str_eq("abc", "abc"));
    assert!(!str_eq("abc", "abd"));
    assert!(!str_eq("abc", "ab"));

    assert!(contains_str("hello world", "lo wo"));
    assert!(contains_str("hello", ""));
    assert!(!contains_str("hello", "Hello"));
    assert!(!contains_str("ab", "abc"));

    assert!(contains_str_ci("Hello World", "hello"));
    assert!(contains_str_ci("ADA@EXAMPLE.COM", "ada@example"));
    assert!(!contains_str_ci("hello", "world"));
}
