use session_auth::users::{RemoteIdentity, UserStore};

fn identity(id: &str, name: &str) -> RemoteIdentity {
    RemoteIdentity { github_id: id.to_string(), username: name.to_string() }
}

#[test]
fn reconcile_creates_and_returns_the_user() {
    let mut users = UserStore::new();
    let u = users.reconcile(&identity("42", "someone"), &"tok-1".to_string());
    assert_eq!(u.github_id, "42");
    assert_eq!(u.username, "someone");
    assert_eq!(u.access_token, "tok-1");
    assert_eq!(users.len(), 1);
}

#[test]
fn reconcile_twice_keeps_one_row_with_latest_values() {
    let mut users = UserStore::new();
    users.reconcile(&identity("42", "first-name"), &"tok-1".to_string());
    users.reconcile(&identity("42", "second-name"), &"tok-2".to_string());
    assert_eq!(users.len(), 1);
    let u = users.get_user(&"42".to_string()).unwrap();
    assert_eq!(u.username, "second-name");
    assert_eq!(u.access_token, "tok-2");
}

#[test]
fn reconcile_distinct_ids_keeps_both() {
    let mut users = UserStore::new();
    users.reconcile(&identity("42", "a"), &"t1".to_string());
    users.reconcile(&identity("43", "b"), &"t2".to_string());
    assert_eq!(users.len(), 2);
    assert_eq!(users.get_user(&"42".to_string()).unwrap().username, "a");
    assert_eq!(users.get_user(&"43".to_string()).unwrap().username, "b");
}

#[test]
fn get_user_of_absent_id_is_none() {
    let users = UserStore::new();
    assert!(users.get_user(&"42".to_string()).is_none());
}

#[test]
fn get_user_by_encoded_id_bytes() {
    let mut users = UserStore::new();
    users.reconcile(&identity("42", "someone"), &"tok".to_string());
    let u = users.get_user_by_encoded(b"42").unwrap();
    assert_eq!(u.github_id, "42");
    assert!(users.get_user_by_encoded(b"41").is_none());
}

#[test]
fn redacted_debug_never_carries_the_token() {
    let mut users = UserStore::new();
    let u = users.reconcile(&identity("42", "someone"), &"SECRET-REDACTED".to_string());
    let rendered = u.redacted_debug();
    assert!(!rendered.contains("SECRET-REDACTED"));
    assert!(rendered.contains("someone"));
    assert!(rendered.contains("[redacted]"));
}

#[test]
fn redacted_debug_is_the_same_for_any_token() {
    let mut users = UserStore::new();
    let a = users.reconcile(&identity("42", "someone"), &"token-one".to_string());
    let b = users.reconcile(&identity("42", "someone"), &"token-two".to_string());
    assert_eq!(a.redacted_debug(), b.redacted_debug());
}
