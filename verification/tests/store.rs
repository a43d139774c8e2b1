use session_auth::codec::SessionPayload;
use session_auth::session::{SessionRecord, SessionStore};
use session_auth::store::{MemoryStore, SessionBackend};

fn record(id: &str, csrf: Option<&[u8]>, user: Option<&[u8]>, expiry: u64) -> SessionRecord {
    SessionRecord {
        id: id.to_string(),
        payload: SessionPayload {
            csrf_token: csrf.map(|b| b.to_vec()),
            next_url: None,
            user_id: user.map(|b| b.to_vec()),
        },
        expiry,
    }
}

#[test]
fn save_then_load_returns_equal_record() {
    let mut store = SessionStore::new(MemoryStore::new());
    let r = record("sid-1", Some(b"T1"), None, 100);
    store.save(&r).unwrap();
    let loaded = store.load(&"sid-1".to_string(), 99).unwrap().unwrap();
    assert_eq!(loaded.id, "sid-1");
    assert_eq!(loaded.payload, r.payload);
    assert_eq!(loaded.expiry, 100);
}

#[test]
fn load_of_absent_id_is_none() {
    let store = SessionStore::new(MemoryStore::new());
    assert!(store.load(&"missing".to_string(), 0).unwrap().is_none());
}

#[test]
fn load_after_expiry_is_none_without_sweep() {
    let mut store = SessionStore::new(MemoryStore::new());
    store.save(&record("sid-1", Some(b"T1"), None, 100)).unwrap();
    // Exactly at the expiry the record is already gone to readers.
    assert!(store.load(&"sid-1".to_string(), 100).unwrap().is_none());
    assert!(store.load(&"sid-1".to_string(), 101).unwrap().is_none());
    // Just before it, it is still there.
    assert!(store.load(&"sid-1".to_string(), 99).unwrap().is_some());
}

#[test]
fn save_overwrites_whole_record_last_writer_wins() {
    let mut store = SessionStore::new(MemoryStore::new());
    store.save(&record("sid-1", Some(b"T1"), None, 100)).unwrap();
    store.save(&record("sid-1", None, Some(b"42"), 200)).unwrap();
    let loaded = store.load(&"sid-1".to_string(), 0).unwrap().unwrap();
    assert_eq!(loaded.payload.csrf_token, None);
    assert_eq!(loaded.payload.user_id, Some(b"42".to_vec()));
    assert_eq!(loaded.expiry, 200);
}

#[test]
fn delete_is_idempotent() {
    let mut store = SessionStore::new(MemoryStore::new());
    store.save(&record("sid-1", Some(b"T1"), None, 100)).unwrap();
    store.delete(&"sid-1".to_string()).unwrap();
    assert!(store.load(&"sid-1".to_string(), 0).unwrap().is_none());
    // Deleting an id that is not there is not an error.
    store.delete(&"sid-1".to_string()).unwrap();
    store.delete(&"never-existed".to_string()).unwrap();
}

#[test]
fn sweep_removes_exactly_the_expired_records() {
    let mut store = SessionStore::new(MemoryStore::new());
    store.save(&record("early", Some(b"a"), None, 50)).unwrap();
    store.save(&record("edge", Some(b"b"), None, 100)).unwrap();
    store.save(&record("late", Some(b"c"), None, 150)).unwrap();
    store.delete_expired(100).unwrap();
    // Rows with expiry <= 100 are gone; the later row is untouched.
    assert!(store.load(&"early".to_string(), 0).unwrap().is_none());
    assert!(store.load(&"edge".to_string(), 0).unwrap().is_none());
    let kept = store.load(&"late".to_string(), 0).unwrap().unwrap();
    assert_eq!(kept.payload.csrf_token, Some(b"c".to_vec()));
    assert_eq!(kept.expiry, 150);
}

#[test]
fn corrupt_stored_payload_reads_as_no_session() {
    let mut backend = MemoryStore::new();
    backend
        .save(&"sid-1".to_string(), &vec![0xFF, 0xFF, 0xFF], 100)
        .unwrap();
    let store = SessionStore::new(backend);
    assert!(store.load(&"sid-1".to_string(), 0).unwrap().is_none());
}
