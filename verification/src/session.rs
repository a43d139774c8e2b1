//! Session records: the payload-carrying view of the raw session store.
//!
//! A record is saved as its encoded payload plus an expiry; loading
//! decodes on the way out. A row that fails to decode is reported as no
//! session at all — a corrupt session is operationally an absent one —
//! while a backend failure stays a distinct error.

use vstd::prelude::*;

use crate::codec::{
    decode, encode, payload_wf, spec_decode, spec_encode, PayloadV, SessionPayload,
    lemma_encode_decode,
};
use crate::store::{spec_sweep, SessionBackend, SessionRow, StoreError};

verus! {

/// One session: an opaque id (carried in a cookie), the payload the
/// login flow stores under it, and an absolute expiry timestamp.
pub struct SessionRecord {
    pub id: String,
    pub payload: SessionPayload,
    pub expiry: u64,
}

/// A session record at the level contracts speak of.
pub struct RecordV {
    pub id: Seq<char>,
    pub payload: PayloadV,
    pub expiry: u64,
}

impl View for SessionRecord {
    type V = RecordV;

    open spec fn view(&self) -> RecordV {
        RecordV { id: self.id@, payload: self.payload@, expiry: self.expiry }
    }
}

pub open spec fn record_wf(r: RecordV) -> bool {
    payload_wf(r.payload)
}

pub open spec fn opt_record_view(o: Option<SessionRecord>) -> Option<RecordV> {
    match o {
        Some(r) => Some(r@),
        None => None,
    }
}

/// What loading `id` at time `now` from the rows `m` yields: the decoded
/// record if the row is there, not yet expired, and decodes; nothing
/// otherwise.
pub open spec fn spec_load_record(
    m: Map<Seq<char>, SessionRow>,
    id: Seq<char>,
    now: u64,
) -> Option<RecordV> {
    if m.dom().contains(id) && m[id].expiry > now {
        match spec_decode(m[id].data) {
            Some(p) => Some(RecordV { id, payload: p, expiry: m[id].expiry }),
            None => None,
        }
    } else {
        None
    }
}

/// The row a saved record leaves in the store.
pub open spec fn spec_record_row(r: RecordV) -> SessionRow {
    SessionRow { data: spec_encode(r.payload), expiry: r.expiry }
}

/// Record-level storage over an abstract backend.
pub struct SessionStore<S: SessionBackend> {
    backend: S,
}

impl<S: SessionBackend> SessionStore<S> {
    /// The rows currently stored, as the backend holds them.
    pub closed spec fn sessions(&self) -> Map<Seq<char>, SessionRow> {
        self.backend.sessions()
    }

    pub closed spec fn inv(&self) -> bool {
        self.backend.inv()
    }

    pub fn new(backend: S) -> (r: SessionStore<S>)
        requires
            backend.inv(),
        ensures
            r.inv(),
            r.sessions() == backend.sessions(),
    {
        SessionStore { backend }
    }

    /// Idempotent upsert keyed by the record's id: payload and expiry of
    /// an existing row are overwritten whole, the last writer wins.
    pub fn save(&mut self, r: &SessionRecord) -> (res: Result<(), StoreError>)
        requires
            old(self).inv(),
            record_wf(r@),
        ensures
            final(self).inv(),
            match res {
                Ok(()) => final(self).sessions() == old(self).sessions().insert(
                    r.id@,
                    spec_record_row(r@),
                ),
                Err(e) => final(self).sessions() == old(self).sessions() && e
                    == StoreError::Unavailable,
            },
    {
        let data = encode(&r.payload);
        self.backend.save(&r.id, &data, r.expiry)
    }

    /// Returns the record under `id`, or nothing if the id is absent, the
    /// row's expiry is at or before `now`, or the stored payload does not
    /// decode. The expiry predicate is evaluated here, on every read,
    /// whether or not the sweep has run.
    pub fn load(&self, id: &String, now: u64) -> (res: Result<Option<SessionRecord>, StoreError>)
        requires
            self.inv(),
        ensures
            match res {
                Ok(o) => opt_record_view(o) == spec_load_record(self.sessions(), id@, now),
                Err(e) => e == StoreError::Unavailable,
            },
    {
        match self.backend.load(id, now) {
            Err(e) => Err(e),
            Ok(None) => Ok(None),
            Ok(Some((data, expiry))) => match decode(data.as_slice()) {
                Err(_) => Ok(None),
                Ok(payload) => Ok(Some(SessionRecord { id: id.clone(), payload, expiry })),
            },
        }
    }

    /// Unconditional removal; deleting an absent id is not an error.
    pub fn delete(&mut self, id: &String) -> (res: Result<(), StoreError>)
        requires
            old(self).inv(),
        ensures
            final(self).inv(),
            match res {
                Ok(()) => final(self).sessions() == old(self).sessions().remove(id@),
                Err(e) => final(self).sessions() == old(self).sessions() && e
                    == StoreError::Unavailable,
            },
    {
        self.backend.delete(id)
    }

    /// Housekeeping: removes exactly the rows whose expiry is at or
    /// before `now`. Readers do not depend on it; only storage growth
    /// does.
    pub fn delete_expired(&mut self, now: u64) -> (res: Result<(), StoreError>)
        requires
            old(self).inv(),
        ensures
            final(self).inv(),
            match res {
                Ok(()) => final(self).sessions() == spec_sweep(old(self).sessions(), now),
                Err(e) => final(self).sessions() == old(self).sessions() && e
                    == StoreError::Unavailable,
            },
    {
        self.backend.delete_expired(now)
    }
}

/// Saving a record and loading its id back before its expiry yields that
/// record, whatever else the store held.
pub proof fn lemma_save_then_load(m: Map<Seq<char>, SessionRow>, r: RecordV, now: u64)
    requires
        record_wf(r),
        now < r.expiry,
    ensures
        spec_load_record(m.insert(r.id, spec_record_row(r)), r.id, now) == Some(r),
{
    lemma_encode_decode(r.payload);
}

/// Once `now` has reached a row's expiry, loading its id yields nothing,
/// whether or not the sweep has removed the row yet.
pub proof fn lemma_load_expired(m: Map<Seq<char>, SessionRow>, id: Seq<char>, now: u64)
    requires
        m.dom().contains(id) ==> m[id].expiry <= now,
    ensures
        spec_load_record(m, id, now) == None::<RecordV>,
{
}

/// The sweep removes exactly the rows whose expiry is at or before `now`:
/// every other row is still there, unchanged.
pub proof fn lemma_sweep_exact(m: Map<Seq<char>, SessionRow>, now: u64)
    ensures
        forall|id: Seq<char>|
            #[trigger] spec_sweep(m, now).dom().contains(id) <==> (m.dom().contains(id)
                && m[id].expiry > now),
        forall|id: Seq<char>|
            m.dom().contains(id) && m[id].expiry > now ==> #[trigger] spec_sweep(m, now)[id]
                == m[id],
{
}

} // verus!
