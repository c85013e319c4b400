use paryxa::basic::{basic_optional, parse_authorization};
use paryxa::errors::Error;

fn header_for(user: &str, pass: &str) -> String {
    format!("Basic {}", base64::encode(format!("{}:{}", user, pass)))
}

#[test]
fn well_formed_header_yields_the_credential() {
    let bu = parse_authorization(&header_for("alice", "secret")).unwrap();
    assert_eq!(bu.username, "alice");
    assert_eq!(bu.password, "secret");
}

#[test]
fn extra_whitespace_is_tolerated() {
    let blob = base64::encode("a:b");
    let bu = parse_authorization(&format!("  Basic\t\t{}  ", blob)).unwrap();
    assert_eq!(bu.username, "a");
    assert_eq!(bu.password, "b");
}

#[test]
fn unicode_whitespace_separates_like_the_ascii_kind() {
    let blob = base64::encode("a:b");
    let bu = parse_authorization(&format!("\u{a0}Basic\u{2003}{}\u{a0}", blob)).unwrap();
    assert_eq!(bu.username, "a");
    assert_eq!(bu.password, "b");
}

#[test]
fn wrong_scheme_is_rejected() {
    let blob = base64::encode("a:b");
    let r = parse_authorization(&format!("Bearer {}", blob));
    assert_eq!(r.unwrap_err(), Error::InvalidPayload);
}

#[test]
fn missing_credentials_are_rejected() {
    assert_eq!(
        parse_authorization("Basic").unwrap_err(),
        Error::InvalidPayload
    );
    assert_eq!(parse_authorization("").unwrap_err(), Error::InvalidPayload);
    assert_eq!(
        parse_authorization("   ").unwrap_err(),
        Error::InvalidPayload
    );
}

#[test]
fn a_third_token_is_rejected() {
    let blob = base64::encode("a:b");
    let r = parse_authorization(&format!("Basic {} extra", blob));
    assert_eq!(r.unwrap_err(), Error::InvalidPayload);
}

#[test]
fn invalid_base64_is_rejected() {
    assert_eq!(
        parse_authorization("Basic !!!").unwrap_err(),
        Error::InvalidPayload
    );
}

#[test]
fn credentials_without_a_colon_are_rejected() {
    let blob = base64::encode("no-colon-here");
    assert_eq!(
        parse_authorization(&format!("Basic {}", blob)).unwrap_err(),
        Error::InvalidPayload
    );
}

#[test]
fn credentials_with_two_colons_are_rejected() {
    let blob = base64::encode("a:b:c");
    assert_eq!(
        parse_authorization(&format!("Basic {}", blob)).unwrap_err(),
        Error::InvalidPayload
    );
}

#[test]
fn non_utf8_credentials_are_rejected() {
    let blob = base64::encode([0xFFu8, b':', b'a']);
    assert_eq!(
        parse_authorization(&format!("Basic {}", blob)).unwrap_err(),
        Error::InvalidPayload
    );
}

#[test]
fn empty_user_and_password_are_allowed() {
    let blob = base64::encode(":");
    let bu = parse_authorization(&format!("Basic {}", blob)).unwrap();
    assert_eq!(bu.username, "");
    assert_eq!(bu.password, "");
}

#[test]
fn optional_header_falls_back_to_anonymous() {
    assert!(basic_optional(None).is_none());
    assert!(basic_optional(Some("garbage")).is_none());
    let header = header_for("u", "p");
    let bu = basic_optional(Some(&header)).unwrap();
    assert_eq!(bu.username, "u");
}
