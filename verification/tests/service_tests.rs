use account_auth::codec::{encode_user, make_user_key};
use account_auth::{
    AccountStore, AuthType, CheckUserActiveDTO, CheckUserActiveService, CreateUserService,
    GetUserListService, KvEngine, StoreConfig, UserEntity, UserServiceError, WriteOptions,
    hash_password,
};

fn empty_store() -> AccountStore {
    AccountStore::new(KvEngine::new(), StoreConfig::new())
}

fn store_with_record(username: &str, password: &str, is_deleted: bool) -> AccountStore {
    let mut engine = KvEngine::new();
    let rec = UserEntity {
        username: username.to_string(),
        password: hash_password(password),
        is_deleted,
    };
    engine.put_opt(make_user_key(username), encode_user(&rec), &WriteOptions::new());
    AccountStore::new(engine, StoreConfig::new())
}

fn dto(username: &str, password: &str, method: Option<AuthType>) -> CheckUserActiveDTO {
    CheckUserActiveDTO {
        username: username.to_string(),
        password: password.to_string(),
        method,
    }
}

#[test]
fn create_account_twice_distinct_and_retrievable() {
    let mut store = empty_store();
    let service = CreateUserService::new();
    let (u1, p1) = service.create_user(&mut store).expect("creation must succeed");
    let (u2, p2) = service.create_user(&mut store).expect("creation must succeed");
    assert_ne!(u1, u2, "two creations must yield distinct usernames");
    assert_ne!(p1, p2, "two creations must yield distinct passwords");
    for u in [&u1, &u2] {
        assert_eq!(u.len(), 36);
        for (i, c) in u.chars().enumerate() {
            if i == 8 || i == 13 || i == 18 || i == 23 {
                assert_eq!(c, '-');
            } else {
                assert!(c.is_ascii_hexdigit() && !c.is_ascii_uppercase());
            }
        }
    }
    for p in [&p1, &p2] {
        assert_eq!(p.len(), 64);
        assert!(p.chars().all(|c| c.is_ascii_hexdigit() && !c.is_ascii_uppercase()));
    }
    for (u, p) in [(&u1, &p1), (&u2, &p2)] {
        let rec = store
            .check_user_active(u)
            .expect("read must not fail")
            .expect("created account must be retrievable");
        assert_eq!(&rec.username, u);
        assert_eq!(rec.password, hash_password(p));
        assert!(!rec.is_deleted);
    }
}

#[test]
fn verify_credentials_wrong_then_right() {
    let store = store_with_record("alice", "secret", false);
    let service = CheckUserActiveService::new();
    let err = service
        .check_user_active(&store, dto("alice", "wrong", None))
        .unwrap_err();
    assert!(matches!(err, UserServiceError::InvalidCredentials(_)));
    let ok = service
        .check_user_active(&store, dto("alice", "secret", None))
        .unwrap();
    assert!(ok);
}

#[test]
fn verify_credentials_unknown_user() {
    let store = empty_store();
    let service = CheckUserActiveService::new();
    let err = service
        .check_user_active(&store, dto("nobody", "pw", None))
        .unwrap_err();
    assert!(matches!(err, UserServiceError::UserNotFound(_)));
}

#[test]
fn verify_credentials_collects_all_violations() {
    let store = empty_store();
    let service = CheckUserActiveService::new();
    let err = service.check_user_active(&store, dto("", "", None)).unwrap_err();
    match err {
        UserServiceError::BadRequest(es) => {
            assert_eq!(es.len(), 2);
            assert_eq!(es[0].field, "username");
            assert_eq!(es[1].field, "password");
        },
        other => panic!("expected BadRequest, got {}", other.message()),
    }
}

#[test]
fn list_active_returns_exactly_the_active_accounts() {
    let mut store = empty_store();
    store.create_user("a1", "h1").unwrap();
    store.create_user("a2", "h2").unwrap();
    store.create_user("a3", "h3").unwrap();
    let rec = UserEntity {
        username: "gone".to_string(),
        password: "h4".to_string(),
        is_deleted: true,
    };
    let mut engine = KvEngine::new();
    engine.put_opt(make_user_key("gone"), encode_user(&rec), &WriteOptions::new());
    // rebuild one store holding all four records
    let mut store = AccountStore::new(engine, StoreConfig::new());
    store.create_user("a1", "h1").unwrap();
    store.create_user("a2", "h2").unwrap();
    store.create_user("a3", "h3").unwrap();
    let service = GetUserListService::new();
    let listed = service.get_user_list(&store).unwrap();
    assert_eq!(listed.len(), 3);
    assert!(listed.iter().all(|d| !d.is_deleted));
    let names: Vec<&str> = listed.iter().map(|d| d.username.as_str()).collect();
    assert_eq!(names, ["a1", "a2", "a3"]);
}

#[test]
fn list_exposes_stored_password_representation() {
    let mut store = empty_store();
    store.create_user("a1", "stored-hash").unwrap();
    let service = GetUserListService::new();
    let listed = service.get_user_list(&store).unwrap();
    assert_eq!(listed[0].password, "stored-hash");
}

#[test]
fn service_error_status_codes() {
    assert_eq!(UserServiceError::UserNotFound("x".to_string()).status_code(), 404);
    assert_eq!(UserServiceError::InvalidCredentials("x".to_string()).status_code(), 401);
    assert_eq!(UserServiceError::UserNotActive("x".to_string()).status_code(), 403);
    assert_eq!(UserServiceError::BadRequest(Vec::new()).status_code(), 400);
    assert_eq!(UserServiceError::JwtError("x".to_string()).status_code(), 500);
    assert_eq!(
        UserServiceError::Repository(account_auth::UserRepositoryError::Decode).status_code(),
        500
    );
}

#[test]
fn service_error_messages() {
    assert_eq!(
        UserServiceError::UserNotFound("User not found".to_string()).message(),
        "User not found: User not found"
    );
    assert_eq!(UserServiceError::BadRequest(Vec::new()).message(), "Validation error");
    assert_eq!(
        UserServiceError::Repository(account_auth::UserRepositoryError::Utf8).message(),
        "Repository error: Stored key is not valid UTF-8"
    );
}
