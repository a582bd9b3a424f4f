use account_auth::codec::{encode_user, make_user_key};
use account_auth::{
    AccountStore, KvEngine, StoreConfig, UserEntity, UserRepositoryError, WriteOptions,
};

fn empty_store() -> AccountStore {
    AccountStore::new(KvEngine::new(), StoreConfig::new())
}

fn store_with_record(username: &str, password_hash: &str, is_deleted: bool) -> AccountStore {
    let mut engine = KvEngine::new();
    let rec = UserEntity {
        username: username.to_string(),
        password: password_hash.to_string(),
        is_deleted,
    };
    engine.put_opt(make_user_key(username), encode_user(&rec), &WriteOptions::new());
    AccountStore::new(engine, StoreConfig::new())
}

#[test]
fn get_of_unwritten_username_is_none() {
    let store = empty_store();
    let got = store.check_user_active("ghost").expect("read must not fail");
    assert!(got.is_none());
}

#[test]
fn get_after_create_returns_record() {
    let mut store = empty_store();
    store.create_user("alice", "hash-1").expect("create must succeed");
    let rec = store
        .check_user_active("alice")
        .expect("read must not fail")
        .expect("record must exist");
    assert_eq!(rec.username, "alice");
    assert_eq!(rec.password, "hash-1");
    assert!(!rec.is_deleted);
}

#[test]
fn second_create_silently_replaces() {
    let mut store = empty_store();
    store.create_user("alice", "hash-1").unwrap();
    store.create_user("alice", "hash-2").unwrap();
    let rec = store.check_user_active("alice").unwrap().unwrap();
    assert_eq!(rec.password, "hash-2");
    let listed = store.get_user_list().unwrap();
    assert_eq!(listed.len(), 1);
}

#[test]
fn list_skips_deleted_records() {
    let mut engine = KvEngine::new();
    for (name, deleted) in [("a1", false), ("a2", true), ("a3", false)] {
        let rec = UserEntity {
            username: name.to_string(),
            password: "h".to_string(),
            is_deleted: deleted,
        };
        engine.put_opt(make_user_key(name), encode_user(&rec), &WriteOptions::new());
    }
    let store = AccountStore::new(engine, StoreConfig::new());
    let listed = store.get_user_list().unwrap();
    assert_eq!(listed.len(), 2);
    assert!(listed.iter().all(|r| !r.is_deleted));
    let names: Vec<&str> = listed.iter().map(|r| r.username.as_str()).collect();
    assert_eq!(names, ["a1", "a3"]);
}

#[test]
fn list_is_in_key_order() {
    let mut store = empty_store();
    store.create_user("mallory", "h3").unwrap();
    store.create_user("alice", "h1").unwrap();
    store.create_user("zed", "h4").unwrap();
    store.create_user("bob", "h2").unwrap();
    let names: Vec<String> =
        store.get_user_list().unwrap().into_iter().map(|r| r.username).collect();
    assert_eq!(names, ["alice", "bob", "mallory", "zed"]);
}

#[test]
fn list_ignores_foreign_namespaces() {
    let mut engine = KvEngine::new();
    engine.put_opt(b"mqtt:dev1".to_vec(), b"opaque".to_vec(), &WriteOptions::new());
    let rec = UserEntity::create("alice".to_string(), "h".to_string());
    engine.put_opt(make_user_key("alice"), encode_user(&rec), &WriteOptions::new());
    let store = AccountStore::new(engine, StoreConfig::new());
    let listed = store.get_user_list().unwrap();
    assert_eq!(listed.len(), 1);
    assert_eq!(listed[0].username, "alice");
}

#[test]
fn get_of_corrupt_value_is_decode_error() {
    let mut engine = KvEngine::new();
    engine.put_opt(make_user_key("alice"), b"garbage".to_vec(), &WriteOptions::new());
    let store = AccountStore::new(engine, StoreConfig::new());
    let err = store.check_user_active("alice").unwrap_err();
    assert!(matches!(err, UserRepositoryError::Decode));
}

#[test]
fn list_with_corrupt_value_is_decode_error() {
    let mut engine = KvEngine::new();
    engine.put_opt(make_user_key("alice"), b"garbage".to_vec(), &WriteOptions::new());
    let store = AccountStore::new(engine, StoreConfig::new());
    let err = store.get_user_list().unwrap_err();
    assert!(matches!(err, UserRepositoryError::Decode));
}

#[test]
fn list_with_non_utf8_key_is_key_encoding_error() {
    let mut engine = KvEngine::new();
    engine.put_opt(vec![0xff, 0xfe], b"v".to_vec(), &WriteOptions::new());
    let store = AccountStore::new(engine, StoreConfig::new());
    let err = store.get_user_list().unwrap_err();
    assert!(matches!(err, UserRepositoryError::Utf8));
}

#[test]
fn engine_get_returns_last_put() {
    let mut engine = KvEngine::new();
    engine.put_opt(b"k".to_vec(), b"v1".to_vec(), &WriteOptions::new());
    engine.put_opt(b"k".to_vec(), b"v2".to_vec(), &WriteOptions::new());
    let ropts = account_auth::ReadOptions::new();
    assert_eq!(engine.get_opt(b"k", &ropts).unwrap(), &b"v2".to_vec());
    assert!(engine.get_opt(b"missing", &ropts).is_none());
    assert_eq!(engine.entry_count(), 1);
}

#[test]
fn engine_scan_is_lexicographic() {
    let mut engine = KvEngine::new();
    engine.put_opt(b"b".to_vec(), b"2".to_vec(), &WriteOptions::new());
    engine.put_opt(b"a".to_vec(), b"1".to_vec(), &WriteOptions::new());
    engine.put_opt(b"ab".to_vec(), b"3".to_vec(), &WriteOptions::new());
    assert_eq!(engine.entry_count(), 3);
    let mut keys = Vec::new();
    for i in 0..engine.entry_count() {
        keys.push(engine.entry_at(i).0.clone());
    }
    assert_eq!(keys, [b"a".to_vec(), b"ab".to_vec(), b"b".to_vec()]);
}

#[test]
fn fast_write_mode_keeps_contents() {
    let mut store = AccountStore::new(
        KvEngine::new(),
        StoreConfig { fast_writes: true, skip_checksums: true },
    );
    store.create_user("alice", "h").unwrap();
    let rec = store.check_user_active("alice").unwrap().unwrap();
    assert_eq!(rec.username, "alice");
}
