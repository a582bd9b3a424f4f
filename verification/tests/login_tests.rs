use account_auth::codec::{encode_user, make_user_key};
use account_auth::{
    AccountStore, AuthType, CheckUserActiveDTO, KvEngine, StoreConfig, UserEntity,
    UserLoginService, UserServiceError, WriteOptions, hash_password,
};

fn empty_store() -> AccountStore {
    AccountStore::new(KvEngine::new(), StoreConfig::new())
}

fn store_with_record(username: &str, password: &str, is_deleted: bool) -> AccountStore {
    let mut engine = KvEngine::new();
    let rec = UserEntity {
        username: username.to_string(),
        password: hash_password(password),
        is_deleted,
    };
    engine.put_opt(make_user_key(username), encode_user(&rec), &WriteOptions::new());
    AccountStore::new(engine, StoreConfig::new())
}

fn dto(username: &str, password: &str, method: Option<AuthType>) -> CheckUserActiveDTO {
    CheckUserActiveDTO {
        username: username.to_string(),
        password: password.to_string(),
        method,
    }
}

fn service() -> UserLoginService {
    UserLoginService::new("s3cret".to_string())
}

#[test]
fn authenticate_empty_username_is_bad_request_on_username() {
    let store = empty_store();
    let err = service()
        .login_with_credentials(&store, dto("", "pw", Some(AuthType::Credentials)))
        .unwrap_err();
    match err {
        UserServiceError::BadRequest(es) => {
            assert!(es.iter().any(|e| e.field == "username"));
        },
        other => panic!("expected BadRequest, got {}", other.message()),
    }
}

#[test]
fn authenticate_blank_username_is_bad_request_on_username() {
    let store = empty_store();
    let err = service()
        .login_with_credentials(&store, dto(" \t ", "pw", Some(AuthType::Jwt)))
        .unwrap_err();
    match err {
        UserServiceError::BadRequest(es) => {
            assert_eq!(es.len(), 1);
            assert_eq!(es[0].field, "username");
            assert_eq!(es[0].message, "Username cannot be empty");
        },
        other => panic!("expected BadRequest, got {}", other.message()),
    }
}

#[test]
fn authenticate_without_method_is_bad_request_on_method() {
    let store = empty_store();
    let err = service()
        .login_with_credentials(&store, dto("alice", "pw", None))
        .unwrap_err();
    match err {
        UserServiceError::BadRequest(es) => {
            assert_eq!(es.len(), 1);
            assert_eq!(es[0].field, "method");
            assert_eq!(es[0].message, "method cannot be empty");
        },
        other => panic!("expected BadRequest, got {}", other.message()),
    }
}

#[test]
fn authenticate_empty_username_and_no_method_reports_both() {
    let store = empty_store();
    let err = service().login_with_credentials(&store, dto("", "pw", None)).unwrap_err();
    match err {
        UserServiceError::BadRequest(es) => {
            assert_eq!(es.len(), 2);
            assert_eq!(es[0].field, "username");
            assert_eq!(es[1].field, "method");
        },
        other => panic!("expected BadRequest, got {}", other.message()),
    }
}

#[test]
fn authenticate_credentials_needs_password() {
    let store = empty_store();
    let err = service()
        .login_with_credentials(&store, dto("alice", "  ", Some(AuthType::Credentials)))
        .unwrap_err();
    match err {
        UserServiceError::BadRequest(es) => {
            assert_eq!(es.len(), 1);
            assert_eq!(es[0].field, "password");
            assert_eq!(es[0].message, "Password is required for credentials login");
        },
        other => panic!("expected BadRequest, got {}", other.message()),
    }
}

#[test]
fn authenticate_jwt_mode_allows_blank_password_field() {
    let store = store_with_record("carol", "pw", false);
    let (ok, token) = service()
        .login_with_credentials(&store, dto("carol", "", Some(AuthType::Jwt)))
        .expect("token mode ignores the password");
    assert!(ok);
    assert!(!token.is_empty());
}

#[test]
fn authenticate_deleted_user_is_not_active() {
    let store = store_with_record("bob", "pw", true);
    let err = service()
        .login_with_credentials(&store, dto("bob", "pw", Some(AuthType::Credentials)))
        .unwrap_err();
    assert!(matches!(err, UserServiceError::UserNotActive(_)));
}

#[test]
fn authenticate_credentials_success_has_empty_token() {
    let store = store_with_record("alice", "secret", false);
    let (ok, token) = service()
        .login_with_credentials(&store, dto("alice", "secret", Some(AuthType::Credentials)))
        .unwrap();
    assert!(ok);
    assert_eq!(token, "");
}

#[test]
fn authenticate_credentials_wrong_password() {
    let store = store_with_record("alice", "secret", false);
    let err = service()
        .login_with_credentials(&store, dto("alice", "wrong", Some(AuthType::Credentials)))
        .unwrap_err();
    assert!(matches!(err, UserServiceError::InvalidCredentials(_)));
}

#[test]
fn authenticate_unknown_user_not_found() {
    let store = empty_store();
    let err = service()
        .login_with_credentials(&store, dto("nobody", "pw", Some(AuthType::Credentials)))
        .unwrap_err();
    assert!(matches!(err, UserServiceError::UserNotFound(_)));
}

#[test]
fn authenticate_jwt_token_carries_the_claims() {
    let store = store_with_record("carol", "pw", false);
    let (ok, token) = service()
        .login_with_credentials(&store, dto("carol", "pw", Some(AuthType::Jwt)))
        .unwrap();
    assert!(ok);
    let validation = jsonwebtoken::Validation::new(jsonwebtoken::Algorithm::HS256);
    let data = jsonwebtoken::decode::<serde_json::Value>(
        &token,
        &jsonwebtoken::DecodingKey::from_secret(b"s3cret"),
        &validation,
    )
    .expect("token must verify under the same secret");
    let claims = data.claims;
    assert_eq!(claims.get("sub").unwrap().as_str().unwrap(), "IoTNet");
    assert_eq!(claims.get("username").unwrap().as_str().unwrap(), "carol");
    let iat = claims.get("iat").unwrap().as_u64().unwrap();
    let exp = claims.get("exp").unwrap().as_u64().unwrap();
    assert_eq!(exp - iat, 3600);
}

#[test]
fn authenticate_jwt_with_empty_secret_is_token_error() {
    let store = store_with_record("carol", "pw", false);
    let service = UserLoginService::new(String::new());
    let err = service
        .login_with_credentials(&store, dto("carol", "pw", Some(AuthType::Jwt)))
        .unwrap_err();
    match err {
        UserServiceError::JwtError(d) => assert_eq!(d, "Signing secret is empty"),
        other => panic!("expected JwtError, got {}", other.message()),
    }
}

#[test]
fn validation_reports_username_and_password_together() {
    let err = service()
        .user_input_credentials_validation(&dto("", "", Some(AuthType::Credentials)))
        .unwrap_err();
    match err {
        UserServiceError::BadRequest(es) => {
            assert_eq!(es.len(), 2);
            assert_eq!(es[0].field, "username");
            assert_eq!(es[1].field, "password");
        },
        other => panic!("expected BadRequest, got {}", other.message()),
    }
}

#[test]
fn validation_passes_for_well_formed_request() {
    let ok = service()
        .user_input_credentials_validation(&dto("alice", "pw", Some(AuthType::Credentials)))
        .unwrap();
    assert!(ok);
}
