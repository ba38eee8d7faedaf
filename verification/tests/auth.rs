//! Login helpers: token extraction and the logged-in check.

use ao3dl::ao3::auth::{extract_token, is_logged_in};

#[test]
fn the_token_field_is_extracted() {
    let t = extract_token(b"{\"token\":\"abc123\"}").expect("well-formed body");
    assert_eq!(t.token, b"abc123".to_vec());
}

#[test]
fn whitespace_around_the_tokens_is_accepted() {
    let t = extract_token(b" \t{ \"token\" :\n\"x-y_z\" }\r\n").expect("well-formed body");
    assert_eq!(t.token, b"x-y_z".to_vec());
}

#[test]
fn an_empty_token_string_is_extracted_as_empty() {
    let t = extract_token(b"{\"token\":\"\"}").expect("well-formed body");
    assert_eq!(t.token, Vec::<u8>::new());
}

#[test]
fn standard_escapes_are_decoded() {
    let t = extract_token(b"{\"token\":\"a\\\"b\"}").expect("an escaped quote is fine");
    assert_eq!(t.token, b"a\"b".to_vec());
    let t = extract_token(b"{\"token\":\"a\\\\b\\/c\"}").unwrap();
    assert_eq!(t.token, b"a\\b/c".to_vec());
    let t = extract_token(b"{\"token\":\"l1\\nl2\\t.\\r\\b\\f\"}").unwrap();
    assert_eq!(t.token, b"l1\nl2\t.\r\x08\x0C".to_vec());
}

#[test]
fn unicode_escapes_are_decoded_to_utf8() {
    let t = extract_token(b"{\"token\":\"\\u0041\"}").unwrap();
    assert_eq!(t.token, b"A".to_vec());
    let t = extract_token(b"{\"token\":\"\\u00e9\"}").unwrap();
    assert_eq!(t.token, "\u{e9}".as_bytes().to_vec());
    let t = extract_token(b"{\"token\":\"\\u2603\"}").unwrap();
    assert_eq!(t.token, "\u{2603}".as_bytes().to_vec());
    // a surrogate pair combines into one code point
    let t = extract_token(b"{\"token\":\"\\uD834\\uDD1E\"}").unwrap();
    assert_eq!(t.token, "\u{1D11E}".as_bytes().to_vec());
}

#[test]
fn broken_escapes_and_lone_surrogates_are_rejected() {
    assert!(extract_token(b"{\"token\":\"a\\x\"}").is_none());
    assert!(extract_token(b"{\"token\":\"a\\u12\"}").is_none());
    assert!(extract_token(b"{\"token\":\"a\\u12zz\"}").is_none());
    assert!(extract_token(b"{\"token\":\"\\uD834\"}").is_none());
    assert!(extract_token(b"{\"token\":\"\\uD834\\u0041\"}").is_none());
    assert!(extract_token(b"{\"token\":\"\\uDD1E\"}").is_none());
    assert!(extract_token(b"{\"token\":\"a\\\"}").is_none());
}

#[test]
fn raw_control_bytes_in_the_string_are_rejected() {
    assert!(extract_token(b"{\"token\":\"a\nb\"}").is_none());
    assert!(extract_token(b"{\"token\":\"a\x01b\"}").is_none());
    assert!(extract_token(b"{\"token\":\"a\tb\"}").is_none());
}

#[test]
fn non_ascii_utf8_passes_through_unchanged() {
    let body = "{\"token\":\"caf\u{e9}\"}".as_bytes();
    let t = extract_token(body).unwrap();
    assert_eq!(t.token, "caf\u{e9}".as_bytes().to_vec());
}

#[test]
fn other_shapes_yield_no_token() {
    assert_eq!(extract_token(b"").map(|t| t.token), None);
    assert_eq!(extract_token(b"{}").map(|t| t.token), None);
    assert_eq!(extract_token(b"[\"token\"]").map(|t| t.token), None);
    assert_eq!(extract_token(b"{\"token\":42}").map(|t| t.token), None);
    assert_eq!(
        extract_token(b"{\"token\":\"a\",\"extra\":1}").map(|t| t.token),
        None
    );
    assert_eq!(extract_token(b"{\"token\":\"a\"} trailing").map(|t| t.token), None);
    assert_eq!(extract_token(b"{\"token\":\"unterminated}").map(|t| t.token), None);
}

#[test]
fn the_logout_link_shows_a_signed_in_account() {
    let body = b"<html><li><a href=\"/users/logout\">Log Out</a></li></html>";
    assert!(is_logged_in(body));
}

#[test]
fn a_body_without_the_logout_link_is_not_signed_in() {
    assert!(!is_logged_in(b"<html>Please log in</html>"));
    assert!(!is_logged_in(b""));
    assert!(!is_logged_in(b"href=\"/users/login\""));
}
