//! The request-scoped authentication facade.
//!
//! Per browser session the flow is a small state machine: `Anonymous`
//! (no usable session, or one with nothing bound), `LoginPending` (the
//! session holds an anti-forgery token and a redirect target), and
//! `Authenticated` (the session is bound to a user). Starting a login
//! writes the pending state and hands back the provider's authorization
//! URL; the callback first checks the echoed token and only then may the
//! caller trade the authorization code and resolve the identity — both
//! outbound network calls, which happen outside this crate and whose
//! outcome is handed back in as a plain value.

use vstd::prelude::*;
use vstd::utf8::encode_utf8;

use crate::codec::{opt_bytes_view, payload_wf, spec_encode, PayloadV, SessionPayload};
use crate::csrf;
use crate::oauth::{spec_authorize_url, ConfigV, ProviderConfig};
use crate::session::{spec_load_record, SessionRecord, SessionStore};
use crate::store::{spec_sweep, SessionBackend, SessionRow};
use crate::users::{user_row_of, RemoteIdentity, User, UserRowV, UserStore};

verus! {

/// Why a login attempt or a session read failed.
#[derive(Debug, Clone, Copy, PartialEq, Eq, Structural)]
pub enum AuthError {
    /// The callback's `state` did not match a pending login: forgery
    /// suspected or a stale link followed. Handled locally; the session
    /// is reset and no call to the provider is made.
    CsrfMismatch,
    /// The provider rejected the authorization code. Terminal for the
    /// attempt; the user must start over.
    ProviderRejected,
    /// The provider could not be reached. The whole login may be retried
    /// from the start.
    TransportFailure,
    /// The session or user store could not be reached. No session can be
    /// trusted until it clears.
    StorageUnavailable,
}

/// The optional post-login redirect target, as the login form submits
/// it.
#[derive(Debug)]
pub struct NextUrl {
    pub next: Option<String>,
}

impl NextUrl {
    /// The redirect target as the session payload stores it.
    pub fn target_bytes(&self) -> (r: Option<Vec<u8>>)
        ensures
            match (self.next, r) {
                (Some(s), Some(b)) => b@ == encode_utf8(s@),
                (None, None) => true,
                _ => false,
            },
    {
        match &self.next {
            Some(s) => Some(vstd::slice::slice_to_vec(s.as_str().as_bytes())),
            None => None,
        }
    }
}

/// What a session amounts to at one instant.
pub enum SessionStateV {
    Anonymous,
    LoginPending { csrf: Seq<u8>, next: Option<Seq<u8>> },
    Authenticated { user: Seq<u8> },
}

/// The state a session id is in, as derived from the stored rows: no
/// usable record — absent, expired, or undecodable — is `Anonymous`; a
/// record bound to a user is `Authenticated`; a record holding an
/// anti-forgery token and no user is `LoginPending`.
pub open spec fn state_of(
    m: Map<Seq<char>, SessionRow>,
    id: Seq<char>,
    now: u64,
) -> SessionStateV {
    match spec_load_record(m, id, now) {
        None => SessionStateV::Anonymous,
        Some(r) => match r.payload.user {
            Some(u) => SessionStateV::Authenticated { user: u },
            None => match r.payload.csrf {
                Some(c) => SessionStateV::LoginPending { csrf: c, next: r.payload.next },
                None => SessionStateV::Anonymous,
            },
        },
    }
}

/// True when the state is a pending login whose stored token equals the
/// one the callback carried.
pub open spec fn pending_matches(st: SessionStateV, received: Seq<u8>) -> bool {
    match st {
        SessionStateV::LoginPending { csrf, next } => csrf == received,
        _ => false,
    }
}

/// The redirect target of a pending login, if the state is one.
pub open spec fn pending_next(st: SessionStateV) -> Option<Seq<u8>> {
    match st {
        SessionStateV::LoginPending { csrf, next } => next,
        _ => None,
    }
}

/// The id of the bound user, if the state is authenticated.
pub open spec fn bound_user(st: SessionStateV) -> Option<Seq<u8>> {
    match st {
        SessionStateV::Authenticated { user } => Some(user),
        _ => None,
    }
}

/// The payload written when a login starts.
pub open spec fn pending_payload(csrf: Seq<u8>, next: Option<Seq<u8>>) -> PayloadV {
    PayloadV { csrf: Some(csrf), next, user: None }
}

/// The payload written when a login completes.
pub open spec fn authed_payload(user: Seq<u8>) -> PayloadV {
    PayloadV { csrf: None, next: None, user: Some(user) }
}

/// What the provider side of a callback came to, handed in by the caller
/// after the outbound calls: the resolved identity together with the
/// access token the code was traded for, a rejection of the code, or a
/// transport failure. Within one callback the code is traded first and
/// the identity resolved second; a failure of either step arrives here
/// as the same terminal outcome of the attempt.
pub enum ProviderOutcome {
    Identity { identity: RemoteIdentity, access_token: String },
    Rejected,
    TransportFailed,
}

/// One saved row as a started login leaves it, and the URL handed back,
/// for the token `t` that was minted.
pub open spec fn started_with(
    pre: Map<Seq<char>, SessionRow>,
    post: Map<Seq<char>, SessionRow>,
    cfg: ConfigV,
    id: Seq<char>,
    next: Option<Seq<u8>>,
    expiry: u64,
    url: Seq<u8>,
    t: Seq<u8>,
) -> bool {
    &&& 0 < t.len() <= 64
    &&& post == pre.insert(id, (SessionRow { data: spec_encode(pending_payload(t, next)), expiry }))
    &&& url == spec_authorize_url(cfg, t)
}

/// The row a started login writes puts the session in `LoginPending`
/// under exactly the minted token and redirect target, until the expiry.
pub proof fn lemma_start_login_pending(
    m: Map<Seq<char>, SessionRow>,
    id: Seq<char>,
    t: Seq<u8>,
    next: Option<Seq<u8>>,
    expiry: u64,
    now: u64,
)
    requires
        payload_wf(pending_payload(t, next)),
        now < expiry,
    ensures
        state_of(
            m.insert(id, (SessionRow { data: spec_encode(pending_payload(t, next)), expiry })),
            id,
            now,
        ) == (SessionStateV::LoginPending { csrf: t, next }),
{
    crate::session::lemma_save_then_load(
        m,
        (crate::session::RecordV { id, payload: pending_payload(t, next), expiry }),
        now,
    );
}

/// The row a completed login writes puts the session in `Authenticated`
/// under exactly the bound user id, until the expiry: the pending state
/// is gone.
pub proof fn lemma_finish_authenticated(
    m: Map<Seq<char>, SessionRow>,
    id: Seq<char>,
    user: Seq<u8>,
    expiry: u64,
    now: u64,
)
    requires
        user.len() <= 0xFFFF_FFFF,
        now < expiry,
    ensures
        state_of(
            m.insert(id, (SessionRow { data: spec_encode(authed_payload(user)), expiry })),
            id,
            now,
        ) == (SessionStateV::Authenticated { user }),
{
    crate::session::lemma_save_then_load(
        m,
        (crate::session::RecordV { id, payload: authed_payload(user), expiry }),
        now,
    );
}

/// A removed session is `Anonymous`, whatever it held before.
pub proof fn lemma_removed_is_anonymous(m: Map<Seq<char>, SessionRow>, id: Seq<char>, now: u64)
    ensures
        state_of(m.remove(id), id, now) == SessionStateV::Anonymous,
{
}

/// A completed login reads back as the login that completed: after the
/// rows a finished callback writes — the session bound to the external
/// id `gid`, the user table holding `row` under it — any user the read
/// path can answer with for that session before the expiry (one whose
/// stored row matches and whose encoded id is the bound one, which is
/// what [`AuthSession::current_user`] guarantees of a user it returns)
/// is the reconciled user itself: same external id, same display name,
/// same access token.
pub proof fn lemma_completed_login_reads_back(
    ms: Map<Seq<char>, SessionRow>,
    us: Map<Seq<char>, UserRowV>,
    sid: Seq<char>,
    gid: Seq<char>,
    row: UserRowV,
    expiry: u64,
    now: u64,
    u: User,
)
    requires
        encode_utf8(gid).len() <= 0xFFFF_FFFF,
        now < expiry,
        bound_user(
            state_of(
                ms.insert(
                    sid,
                    (SessionRow { data: spec_encode(authed_payload(encode_utf8(gid))), expiry }),
                ),
                sid,
                now,
            ),
        ) == Some(encode_utf8(u.github_id@)),
        us.insert(gid, row).dom().contains(u.github_id@),
        us.insert(gid, row)[u.github_id@] == user_row_of(u),
    ensures
        u.github_id@ == gid,
        u.username@ == row.username,
        u.access_token@ == row.access_token,
{
    lemma_finish_authenticated(ms, sid, encode_utf8(gid), expiry, now);
    crate::users::lemma_encoded_id_injective(gid, u.github_id@);
}

/// What a verified callback still needs from the provider side: the
/// stored redirect target travels through the outbound calls to the
/// finish step. Only [`AuthSession::begin_callback`] constructs one, so
/// holding it proves the callback passed the anti-forgery gate.
#[derive(Debug)]
pub struct PendingLogin {
    next: Option<Vec<u8>>,
}

impl PendingLogin {
    /// The redirect target the pending login stored.
    pub closed spec fn target_view(&self) -> Option<Seq<u8>> {
        opt_bytes_view(self.next)
    }

    /// Reads the stored redirect target.
    pub fn redirect_target(&self) -> (r: &Option<Vec<u8>>)
        ensures
            opt_bytes_view(*r) == self.target_view(),
    {
        &self.next
    }
}

/// The request-scoped API: starts logins, completes callbacks, resolves
/// the current user, and ends sessions. Owns the session store, the user
/// table and the provider configuration.
pub struct AuthSession<S: SessionBackend> {
    store: SessionStore<S>,
    users: UserStore,
    config: ProviderConfig,
}

impl<S: SessionBackend> AuthSession<S> {
    /// The stored session rows.
    pub closed spec fn session_map(&self) -> Map<Seq<char>, SessionRow> {
        self.store.sessions()
    }

    /// The stored user rows.
    pub closed spec fn user_map(&self) -> Map<Seq<char>, UserRowV> {
        self.users.users()
    }

    /// The provider configuration.
    pub closed spec fn config_view(&self) -> ConfigV {
        self.config@
    }

    pub closed spec fn inv(&self) -> bool {
        self.store.inv() && self.users.inv()
    }

    /// A facade over a fresh user table and the given session backend.
    pub fn new(backend: S, config: ProviderConfig) -> (r: AuthSession<S>)
        requires
            backend.inv(),
        ensures
            r.inv(),
            r.session_map() == backend.sessions(),
            r.user_map() == Map::<Seq<char>, UserRowV>::empty(),
            r.config_view() == config@,
    {
        let users = UserStore::new();
        AuthSession { store: SessionStore::new(backend), users, config }
    }

    /// Starts a login under the given anti-forgery token: writes the
    /// pending state — overwriting any earlier pending attempt whole —
    /// and returns the authorization URL carrying the token. Valid from
    /// `Anonymous`, or again from `LoginPending`; not from
    /// `Authenticated`.
    pub fn start_login_with_state(
        &mut self,
        session_id: &String,
        next: Option<Vec<u8>>,
        state: &Vec<u8>,
        now: u64,
        expiry: u64,
    ) -> (r: Result<Vec<u8>, AuthError>)
        requires
            old(self).inv(),
            payload_wf(pending_payload(state@, opt_bytes_view(next))),
            !(state_of(old(self).session_map(), session_id@, now) matches
            SessionStateV::Authenticated { .. }),
        ensures
            final(self).inv(),
            final(self).user_map() == old(self).user_map(),
            final(self).config_view() == old(self).config_view(),
            match r {
                Ok(url) => final(self).session_map() == old(self).session_map().insert(
                    session_id@,
                    (SessionRow {
                        data: spec_encode(pending_payload(state@, opt_bytes_view(next))),
                        expiry,
                    }),
                ) && url@ == spec_authorize_url(old(self).config_view(), state@),
                Err(e) => e == AuthError::StorageUnavailable && final(self).session_map() == old(self).session_map(),
            },
    {
        let payload = SessionPayload {
            csrf_token: Some(vstd::slice::slice_to_vec(state.as_slice())),
            next_url: next,
            user_id: None,
        };
        let record = SessionRecord { id: session_id.clone(), payload, expiry };
        match self.store.save(&record) {
            Ok(()) => Ok(self.config.authorize_url(state.as_slice())),
            Err(_) => Err(AuthError::StorageUnavailable),
        }
    }

    /// Starts a login: mints a fresh anti-forgery token, writes the
    /// pending state under it, and returns the authorization URL that
    /// embeds it as the `state` parameter.
    pub fn start_login(
        &mut self,
        session_id: &String,
        next: Option<Vec<u8>>,
        now: u64,
        expiry: u64,
    ) -> (r: Result<Vec<u8>, AuthError>)
        requires
            old(self).inv(),
            opt_bytes_view(next) matches Some(n) ==> n.len() <= 0xFFFF_FFFF,
            !(state_of(old(self).session_map(), session_id@, now) matches
            SessionStateV::Authenticated { .. }),
        ensures
            final(self).inv(),
            final(self).user_map() == old(self).user_map(),
            final(self).config_view() == old(self).config_view(),
            match r {
                Ok(url) => exists|t: Seq<u8>|
                    #[trigger] started_with(
                        old(self).session_map(),
                        final(self).session_map(),
                        old(self).config_view(),
                        session_id@,
                        opt_bytes_view(next),
                        expiry,
                        url@,
                        t,
                    ),
                Err(e) => e == AuthError::StorageUnavailable && final(self).session_map() == old(self).session_map(),
            },
    {
        let state = csrf::mint();
        let r = self.start_login_with_state(session_id, next, &state, now, expiry);
        match r {
            Ok(url) => {
                proof {
                    assert(started_with(
                        old(self).session_map(),
                        self.session_map(),
                        old(self).config_view(),
                        session_id@,
                        opt_bytes_view(next),
                        expiry,
                        url@,
                        state@,
                    ));
                }
                Ok(url)
            },
            Err(e) => Err(e),
        }
    }

    /// The verified first half of a callback: loads the session and holds
    /// the stored anti-forgery token against the `state` the provider
    /// echoed. Only on a match does the caller get a [`PendingLogin`] and
    /// may go on to trade the code — on any mismatch, or with no pending
    /// login to match against, the session is reset and the attempt fails
    /// without any call to the provider.
    pub fn begin_callback(
        &mut self,
        session_id: &String,
        received_state: &Vec<u8>,
        now: u64,
    ) -> (r: Result<PendingLogin, AuthError>)
        requires
            old(self).inv(),
        ensures
            final(self).inv(),
            final(self).user_map() == old(self).user_map(),
            final(self).config_view() == old(self).config_view(),
            match r {
                Ok(p) => {
                    &&& pending_matches(
                        state_of(old(self).session_map(), session_id@, now),
                        received_state@,
                    )
                    &&& p.target_view() == pending_next(
                        state_of(old(self).session_map(), session_id@, now),
                    )
                    &&& final(self).session_map() == old(self).session_map()
                },
                Err(AuthError::CsrfMismatch) => {
                    &&& !pending_matches(
                        state_of(old(self).session_map(), session_id@, now),
                        received_state@,
                    )
                    &&& final(self).session_map() == old(self).session_map().remove(session_id@)
                },
                Err(AuthError::StorageUnavailable) => final(self).session_map() == old(self).session_map(),
                Err(_) => false,
            },
    {
        match self.store.load(session_id, now) {
            Err(_) => Err(AuthError::StorageUnavailable),
            Ok(loaded) => {
                match loaded {
                    Some(rec) => {
                        let SessionRecord { id: _, payload, expiry: _ } = rec;
                        let SessionPayload { csrf_token, next_url, user_id } = payload;
                        match (user_id, csrf_token) {
                            (None, Some(stored)) => {
                                if csrf::verify(stored.as_slice(), received_state.as_slice()) {
                                    Ok(PendingLogin { next: next_url })
                                } else {
                                    match self.store.delete(session_id) {
                                        Ok(()) => Err(AuthError::CsrfMismatch),
                                        Err(_) => Err(AuthError::StorageUnavailable),
                                    }
                                }
                            },
                            _ => {
                                match self.store.delete(session_id) {
                                    Ok(()) => Err(AuthError::CsrfMismatch),
                                    Err(_) => Err(AuthError::StorageUnavailable),
                                }
                            },
                        }
                    },
                    None => {
                        match self.store.delete(session_id) {
                            Ok(()) => Err(AuthError::CsrfMismatch),
                            Err(_) => Err(AuthError::StorageUnavailable),
                        }
                    },
                }
            },
        }
    }

    /// The verified second half of a callback, fed what the provider
    /// side came to. On a resolved identity the user is upserted by
    /// external id and the session is bound to it — the pending state is
    /// gone either way — and the stored redirect target is returned. On
    /// a rejected code or a transport failure the session is reset and
    /// the attempt fails with the matching error. If the bind itself
    /// cannot be written, the attempt is a plain login failure: the user
    /// row is already updated, and the pending row is cleared as far as
    /// the failing store allows, so the consumed token does not outlive
    /// the attempt.
    pub fn finish_callback(
        &mut self,
        session_id: &String,
        pending: PendingLogin,
        outcome: ProviderOutcome,
        expiry: u64,
    ) -> (r: Result<Option<Vec<u8>>, AuthError>)
        requires
            old(self).inv(),
            (match outcome {
                ProviderOutcome::Identity { identity, .. } => encode_utf8(identity.github_id@).len()
                    <= 0xFFFF_FFFF,
                _ => true,
            }),
        ensures
            final(self).inv(),
            final(self).config_view() == old(self).config_view(),
            match outcome {
                ProviderOutcome::Identity { identity, access_token } => {
                    &&& final(self).user_map() == old(self).user_map().insert(
                        identity.github_id@,
                        (UserRowV { username: identity.username@, access_token: access_token@ }),
                    )
                    &&& match r {
                        Ok(next) => opt_bytes_view(next) == pending.target_view() && final(self).session_map() == old(self).session_map().insert(
                            session_id@,
                            (SessionRow {
                                data: spec_encode(authed_payload(encode_utf8(identity.github_id@))),
                                expiry,
                            }),
                        ),
                        Err(AuthError::StorageUnavailable) => final(self).session_map() == old(self).session_map() || final(self).session_map() == old(self).session_map().remove(session_id@),
                        Err(_) => false,
                    }
                },
                ProviderOutcome::Rejected => {
                    &&& final(self).user_map() == old(self).user_map()
                    &&& match r {
                        Err(AuthError::ProviderRejected) => final(self).session_map() == old(self).session_map().remove(session_id@),
                        Err(AuthError::StorageUnavailable) => final(self).session_map() == old(self).session_map(),
                        _ => false,
                    }
                },
                ProviderOutcome::TransportFailed => {
                    &&& final(self).user_map() == old(self).user_map()
                    &&& match r {
                        Err(AuthError::TransportFailure) => final(self).session_map() == old(self).session_map().remove(session_id@),
                        Err(AuthError::StorageUnavailable) => final(self).session_map() == old(self).session_map(),
                        _ => false,
                    }
                },
            },
    {
        match outcome {
            ProviderOutcome::Identity { identity, access_token } => {
                let user = self.users.reconcile(&identity, &access_token);
                let id_bytes = vstd::slice::slice_to_vec(user.github_id.as_str().as_bytes());
                let payload = SessionPayload {
                    csrf_token: None,
                    next_url: None,
                    user_id: Some(id_bytes),
                };
                let record = SessionRecord { id: session_id.clone(), payload, expiry };
                match self.store.save(&record) {
                    Ok(()) => Ok(pending.next),
                    Err(_) => {
                        // The attempt failed terminally, so the pending
                        // token must not stay usable: try to clear the
                        // row, though the store just failed a write.
                        let _cleanup = self.store.delete(session_id);
                        Err(AuthError::StorageUnavailable)
                    },
                }
            },
            ProviderOutcome::Rejected => {
                match self.store.delete(session_id) {
                    Ok(()) => Err(AuthError::ProviderRejected),
                    Err(_) => Err(AuthError::StorageUnavailable),
                }
            },
            ProviderOutcome::TransportFailed => {
                match self.store.delete(session_id) {
                    Ok(()) => Err(AuthError::TransportFailure),
                    Err(_) => Err(AuthError::StorageUnavailable),
                }
            },
        }
    }

    /// The read path every downstream consumer uses: the bound user of
    /// an authenticated session, or nothing.
    pub fn current_user(&self, session_id: &String, now: u64) -> (r: Result<Option<User>, AuthError>)
        requires
            self.inv(),
        ensures
            match r {
                Ok(Some(u)) => {
                    &&& bound_user(state_of(self.session_map(), session_id@, now)) == Some(
                        encode_utf8(u.github_id@),
                    )
                    &&& self.user_map().dom().contains(u.github_id@)
                    &&& self.user_map()[u.github_id@] == user_row_of(u)
                },
                Ok(None) => (match bound_user(state_of(self.session_map(), session_id@, now)) {
                    Some(user) => forall|id: Seq<char>|
                        #[trigger] self.user_map().dom().contains(id) ==> encode_utf8(id) != user,
                    None => true,
                }),
                Err(e) => e == AuthError::StorageUnavailable,
            },
    {
        match self.store.load(session_id, now) {
            Err(_) => Err(AuthError::StorageUnavailable),
            Ok(None) => Ok(None),
            Ok(Some(rec)) => {
                match &rec.payload.user_id {
                    None => Ok(None),
                    Some(b) => Ok(self.users.get_user_by_encoded(b.as_slice())),
                }
            },
        }
    }

    /// Ends the session: its record is removed whatever it held, so the
    /// state is `Anonymous` afterward. Idempotent.
    pub fn logout(&mut self, session_id: &String) -> (r: Result<(), AuthError>)
        requires
            old(self).inv(),
        ensures
            final(self).inv(),
            final(self).user_map() == old(self).user_map(),
            final(self).config_view() == old(self).config_view(),
            match r {
                Ok(()) => final(self).session_map() == old(self).session_map().remove(session_id@),
                Err(e) => e == AuthError::StorageUnavailable && final(self).session_map() == old(self).session_map(),
            },
    {
        match self.store.delete(session_id) {
            Ok(()) => Ok(()),
            Err(_) => Err(AuthError::StorageUnavailable),
        }
    }

    /// Housekeeping: removes exactly the session rows whose expiry is at
    /// or before `now`. Readers never depend on it.
    pub fn delete_expired(&mut self, now: u64) -> (r: Result<(), AuthError>)
        requires
            old(self).inv(),
        ensures
            final(self).inv(),
            final(self).user_map() == old(self).user_map(),
            final(self).config_view() == old(self).config_view(),
            match r {
                Ok(()) => final(self).session_map() == spec_sweep(old(self).session_map(), now),
                Err(e) => e == AuthError::StorageUnavailable && final(self).session_map() == old(self).session_map(),
            },
    {
        match self.store.delete_expired(now) {
            Ok(()) => Ok(()),
            Err(_) => Err(AuthError::StorageUnavailable),
        }
    }
}

} // verus!
