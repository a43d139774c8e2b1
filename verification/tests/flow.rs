use session_auth::flow::{AuthError, AuthSession, NextUrl, ProviderOutcome};
use session_auth::oauth::ProviderConfig;
use session_auth::store::MemoryStore;
use session_auth::users::RemoteIdentity;
use session_auth::Username;

const ENDPOINT: &str = "https://github.com/login/oauth/authorize";

fn facade() -> AuthSession<MemoryStore> {
    let config = ProviderConfig {
        authorize_endpoint: ENDPOINT.as_bytes().to_vec(),
        client_id: b"client".to_vec(),
    };
    AuthSession::new(MemoryStore::new(), config)
}

fn outcome(id: &str, name: &str, token: &str) -> ProviderOutcome {
    ProviderOutcome::Identity {
        identity: RemoteIdentity { github_id: id.to_string(), username: name.to_string() },
        access_token: token.to_string(),
    }
}

#[test]
fn full_login_flow_binds_user_and_returns_target() {
    let mut auth = facade();
    let sid = "cookie-1".to_string();

    let url = auth
        .start_login_with_state(&sid, Some(b"/admin".to_vec()), &b"T1".to_vec(), 0, 1000)
        .unwrap();
    let expected = format!("{}?response_type=code&client_id=client&state=T1", ENDPOINT);
    assert_eq!(String::from_utf8(url).unwrap(), expected);

    let pending = auth.begin_callback(&sid, &b"T1".to_vec(), 1).unwrap();
    assert_eq!(pending.redirect_target(), &Some(b"/admin".to_vec()));

    let target = auth
        .finish_callback(&sid, pending, outcome("42", "someone", "tok"), 1000)
        .unwrap();
    assert_eq!(target, Some(b"/admin".to_vec()));

    let user = auth.current_user(&sid, 2).unwrap().unwrap();
    assert_eq!(user.github_id, "42");
    assert_eq!(user.username, "someone");
    assert_eq!(user.access_token, "tok");
}

#[test]
fn csrf_mismatch_fails_before_any_exchange() {
    let mut auth = facade();
    let sid = "cookie-1".to_string();

    auth.start_login_with_state(&sid, Some(b"/".to_vec()), &b"T1".to_vec(), 0, 1000)
        .unwrap();

    // The wrong state never yields a PendingLogin, so the caller has
    // nothing to trade a code with: the exchange step is unreachable.
    let r = auth.begin_callback(&sid, &b"wrong".to_vec(), 1);
    assert_eq!(r.unwrap_err(), AuthError::CsrfMismatch);
    assert!(auth.current_user(&sid, 2).unwrap().is_none());
}

#[test]
fn callback_without_pending_login_is_a_mismatch() {
    let mut auth = facade();
    let sid = "cookie-1".to_string();
    let r = auth.begin_callback(&sid, &b"T1".to_vec(), 0);
    assert_eq!(r.unwrap_err(), AuthError::CsrfMismatch);
}

#[test]
fn start_login_mints_a_fresh_token() {
    let mut auth = facade();
    let sid = "cookie-1".to_string();

    let url = auth.start_login(&sid, None, 0, 1000).unwrap();
    let url = String::from_utf8(url).unwrap();
    let prefix = format!("{}?response_type=code&client_id=client&state=", ENDPOINT);
    assert!(url.starts_with(&prefix));
    // A real token was embedded, not an empty one.
    assert!(url.len() > prefix.len());

    // A guessed state cannot match the minted token.
    let r = auth.begin_callback(&sid, &b"guess".to_vec(), 1);
    assert_eq!(r.unwrap_err(), AuthError::CsrfMismatch);
}

#[test]
fn rejected_code_resets_the_attempt() {
    let mut auth = facade();
    let sid = "cookie-1".to_string();
    auth.start_login_with_state(&sid, None, &b"T1".to_vec(), 0, 1000).unwrap();
    let pending = auth.begin_callback(&sid, &b"T1".to_vec(), 1).unwrap();
    let r = auth.finish_callback(&sid, pending, ProviderOutcome::Rejected, 1000);
    assert_eq!(r.unwrap_err(), AuthError::ProviderRejected);
    assert!(auth.current_user(&sid, 2).unwrap().is_none());
}

#[test]
fn transport_failure_resets_the_attempt() {
    let mut auth = facade();
    let sid = "cookie-1".to_string();
    auth.start_login_with_state(&sid, None, &b"T1".to_vec(), 0, 1000).unwrap();
    let pending = auth.begin_callback(&sid, &b"T1".to_vec(), 1).unwrap();
    let r = auth.finish_callback(&sid, pending, ProviderOutcome::TransportFailed, 1000);
    assert_eq!(r.unwrap_err(), AuthError::TransportFailure);
    assert!(auth.current_user(&sid, 2).unwrap().is_none());
}

#[test]
fn logout_is_idempotent_and_clears_the_user() {
    let mut auth = facade();
    let sid = "cookie-1".to_string();
    auth.start_login_with_state(&sid, None, &b"T1".to_vec(), 0, 1000).unwrap();
    let pending = auth.begin_callback(&sid, &b"T1".to_vec(), 1).unwrap();
    auth.finish_callback(&sid, pending, outcome("42", "someone", "tok"), 1000).unwrap();
    assert!(auth.current_user(&sid, 2).unwrap().is_some());

    auth.logout(&sid).unwrap();
    assert!(auth.current_user(&sid, 3).unwrap().is_none());
    auth.logout(&sid).unwrap();
}

#[test]
fn session_expiry_logs_the_user_out() {
    let mut auth = facade();
    let sid = "cookie-1".to_string();
    auth.start_login_with_state(&sid, None, &b"T1".to_vec(), 0, 1000).unwrap();
    let pending = auth.begin_callback(&sid, &b"T1".to_vec(), 1).unwrap();
    auth.finish_callback(&sid, pending, outcome("42", "someone", "tok"), 10).unwrap();
    assert!(auth.current_user(&sid, 9).unwrap().is_some());
    assert!(auth.current_user(&sid, 10).unwrap().is_none());
    assert!(auth.current_user(&sid, 11).unwrap().is_none());
}

#[test]
fn facade_sweep_keeps_live_sessions() {
    let mut auth = facade();
    let old_sid = "cookie-old".to_string();
    let live_sid = "cookie-live".to_string();
    auth.start_login_with_state(&old_sid, None, &b"T1".to_vec(), 0, 50).unwrap();
    auth.start_login_with_state(&live_sid, None, &b"T2".to_vec(), 0, 500).unwrap();
    auth.delete_expired(100).unwrap();
    assert!(auth.begin_callback(&old_sid, &b"T1".to_vec(), 1).is_err());
    assert!(auth.begin_callback(&live_sid, &b"T2".to_vec(), 1).is_ok());
}

#[test]
fn next_url_converts_to_payload_bytes() {
    let form = NextUrl { next: Some("/admin".to_string()) };
    assert_eq!(form.target_bytes(), Some(b"/admin".to_vec()));
    let none = NextUrl { next: None };
    assert_eq!(none.target_bytes(), None);
}

#[test]
fn username_wraps_the_display_name() {
    let u = Username("someone".to_string());
    assert_eq!(u.0, "someone");
    assert_eq!(u.clone(), Username("someone".to_string()));
}

#[test]
fn admin_access_requires_the_configured_name() {
    let admin = "the-administrator".to_string();
    let granted = session_auth::with_admin_access(Some(Username(admin.clone())), &admin);
    assert_eq!(granted, Some(Username(admin.clone())));
    let denied = session_auth::with_admin_access(Some(Username("someone".to_string())), &admin);
    assert_eq!(denied, None);
    let anonymous = session_auth::with_admin_access(None, &admin);
    assert_eq!(anonymous, None);
}
