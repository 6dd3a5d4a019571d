use authware::model::auth::User;
use authware::model::data::SessionData;
use authware::model::store::Error;
use authware::store::memory::{InMemorySessionStore, DB};
use authware::SessionStore;
use chrono::Utc;

fn _session_data(at: i64) -> SessionData {
    SessionData {
        user: User {
            id: "test_user".to_string(),
            name: "Test User".to_string(),
            department: "Test Department".to_string(),
            roles: vec!["admin".to_string()],
        },
        ip: "".to_string(),
        valid_till: at,
        last_access: 20,
    }
}

#[test]
fn test_db_add() {
    let mut db = DB::new();
    let session_id = "test";
    let now = Utc::now().timestamp_millis();
    let data = _session_data(now + 1000);
    db.insert(session_id, data.clone(), now);
    assert_eq!(db.store_len(), 1);
    assert_eq!(db.expirations_len(), 1);
    assert_eq!(db.get(session_id, now), Some(&data));
}

#[test]
fn test_db_add_expired() {
    let mut db = DB::new();
    let session_id = "test";
    let now = Utc::now().timestamp_millis();
    let data = _session_data(now - 1000);
    db.insert(session_id, data.clone(), now);
    assert_eq!(db.store_len(), 0);
    assert_eq!(db.expirations_len(), 0);
    assert_eq!(db.get(session_id, now), None);
}

#[test]
fn test_db_get_expired() {
    let mut db = DB::new();
    let session_id = "test";
    let now = Utc::now().timestamp_millis();
    let data = _session_data(now + 1000);
    db.insert(session_id, data.clone(), now);
    assert_eq!(db.store_len(), 1);
    db.remove_expired_int(now + 1001);
    assert_eq!(db.get(session_id, now), None);
}

#[test]
fn test_db_remove() {
    let mut db = DB::new();
    let session_id = "test";
    let now = Utc::now().timestamp_millis();
    let data = _session_data(now + 1000);
    db.insert(session_id, data.clone(), now);
    assert_eq!(db.store_len(), 1);
    db.remove(session_id);
    assert_eq!(db.get(session_id, now), None);
}

#[test]
fn test_store_add_remove_get_reports_no_session() {
    let mut store = InMemorySessionStore::new();
    let now: i64 = 10_000;
    store.add("id", _session_data(now + 5000), now).unwrap();
    store.remove("id").unwrap();
    assert!(matches!(store.get("id", now), Err(Error::NoSession())));
}

#[test]
fn test_store_add_expired_get_reports_no_session() {
    let mut store = InMemorySessionStore::new();
    let now: i64 = 10_000;
    store.add("id", _session_data(now), now).unwrap();
    assert!(matches!(store.get("id", now), Err(Error::NoSession())));
}

#[test]
fn test_store_overwrite_keeps_latest() {
    let mut store = InMemorySessionStore::new();
    let now: i64 = 10_000;
    let mut first = _session_data(now + 1000);
    first.last_access = 1;
    let mut second = _session_data(now + 9000);
    second.last_access = 2;
    store.add("id", first, now).unwrap();
    store.add("id", second.clone(), now).unwrap();
    assert_eq!(store.get("id", now).unwrap(), second);
}

#[test]
fn test_store_mark_last_used_updates() {
    let mut store = InMemorySessionStore::new();
    let now: i64 = 10_000;
    store.add("id", _session_data(now + 5000), now).unwrap();
    store.mark_last_used("id", now + 100).unwrap();
    let got = store.get("id", now + 100).unwrap();
    assert_eq!(got.last_access, now + 100);
    assert!(matches!(
        store.mark_last_used("other", now),
        Err(Error::NoSession())
    ));
}
