use account_auth::text::{escape_json_str, is_blank};
use account_auth::{build_user_create_response, KvEngine, User, UserRepository, UserService};

#[test]
fn response_with_username() {
    let r = build_user_create_response(Some("u1"), true, "User created successfully");
    assert_eq!(
        r,
        r#"{"success":true,"message":"User created successfully","data":{"username":"u1"}}"#
    );
}

#[test]
fn response_without_username() {
    let r = build_user_create_response(None, false, "DB Error: down");
    assert_eq!(r, r#"{"success":false,"message":"DB Error: down","data":null}"#);
}

#[test]
fn response_escapes_message() {
    let r = build_user_create_response(None, false, "a \"quoted\"\nline\\");
    assert_eq!(
        r,
        "{\"success\":false,\"message\":\"a \\\"quoted\\\"\\nline\\\\\",\"data\":null}"
    );
}

#[test]
fn escape_handles_all_special_characters() {
    assert_eq!(escape_json_str("plain"), "plain");
    assert_eq!(escape_json_str("q\"b\\n\nr\rt\t"), "q\\\"b\\\\n\\nr\\rt\\t");
}

#[test]
fn blankness_follows_trim() {
    assert!(is_blank(""));
    assert!(is_blank(" \t\r\n"));
    assert!(is_blank("\u{00A0}\u{3000}"));
    assert!(!is_blank(" a "));
}

#[test]
fn legacy_create_user_succeeds() {
    let repo = UserRepository::new(KvEngine::new());
    let mut service = UserService::new(repo);
    service.create_user("u1", "pw").expect("legacy creation must succeed");
}

#[test]
fn legacy_repository_accepts_record() {
    let mut repo = UserRepository::new(KvEngine::new());
    let user = User::new("u1".to_string(), "pw".to_string(), false);
    repo.create_user(&user).expect("legacy write must succeed");
}
