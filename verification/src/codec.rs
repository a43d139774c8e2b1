//! The session payload and its byte codec.
//!
//! A payload is a small map of optional entries: the pending anti-forgery
//! token, the pending post-login redirect target, and the bound user id.
//! On the wire it is a version byte followed by tagged, length-prefixed
//! entries, so that readers of a later shape can skip entries they do not
//! know, and entries that are absent simply stay empty.

use vstd::prelude::*;

use crate::byteops::append_bytes;

verus! {

/// Version byte written in front of every encoded payload.
pub const CODEC_VERSION: u8 = 1;

/// Entry tag for the pending anti-forgery token.
pub const TAG_CSRF: u8 = 1;

/// Entry tag for the pending post-login redirect target.
pub const TAG_NEXT: u8 = 2;

/// Entry tag for the id of the user the session is bound to.
pub const TAG_USER: u8 = 3;

/// Largest value an entry's four-byte little-endian length can carry.
pub const MAX_ENTRY_LEN: usize = 0xFFFF_FFFF;

/// What a decoded or to-be-encoded payload holds, at the level contracts
/// speak of.
pub struct PayloadV {
    pub csrf: Option<Seq<u8>>,
    pub next: Option<Seq<u8>>,
    pub user: Option<Seq<u8>>,
}

/// The opaque session payload: the entries the login flow stores under a
/// session id.
#[derive(Debug, PartialEq, Eq)]
pub struct SessionPayload {
    /// Anti-forgery token of a pending login attempt.
    pub csrf_token: Option<Vec<u8>>,
    /// Where to send the client once a pending login completes.
    pub next_url: Option<Vec<u8>>,
    /// Id of the user this session is bound to, if any.
    pub user_id: Option<Vec<u8>>,
}

pub open spec fn opt_bytes_view(v: Option<Vec<u8>>) -> Option<Seq<u8>> {
    match v {
        Some(s) => Some(s@),
        None => None,
    }
}

impl View for SessionPayload {
    type V = PayloadV;

    open spec fn view(&self) -> PayloadV {
        PayloadV {
            csrf: opt_bytes_view(self.csrf_token),
            next: opt_bytes_view(self.next_url),
            user: opt_bytes_view(self.user_id),
        }
    }
}

impl SessionPayload {
    /// A payload with no entries at all: what a brand-new session holds.
    pub fn empty() -> (r: SessionPayload)
        ensures
            r@ == empty_payload(),
    {
        SessionPayload { csrf_token: None, next_url: None, user_id: None }
    }
}

pub open spec fn empty_payload() -> PayloadV {
    PayloadV { csrf: None, next: None, user: None }
}

/// An entry value must fit its four-byte length prefix.
pub open spec fn opt_wf(v: Option<Seq<u8>>) -> bool {
    match v {
        Some(s) => s.len() <= MAX_ENTRY_LEN as nat,
        None => true,
    }
}

pub open spec fn payload_wf(p: PayloadV) -> bool {
    opt_wf(p.csrf) && opt_wf(p.next) && opt_wf(p.user)
}

/// Decoding failed: the bytes are not a payload this codec wrote.
/// Callers treat such a session as absent, never as a fault.
#[derive(Debug, Clone, Copy, PartialEq, Eq, Structural)]
pub enum DecodeError {
    Corrupt,
}

// --- the little-endian length prefix ---

pub open spec fn le32_bytes(n: u32) -> Seq<u8> {
    seq![
        (n & 0xff) as u8,
        ((n >> 8) & 0xff) as u8,
        ((n >> 16) & 0xff) as u8,
        ((n >> 24) & 0xff) as u8,
    ]
}

pub open spec fn le32_val(b0: u8, b1: u8, b2: u8, b3: u8) -> u32 {
    (b0 as u32) | ((b1 as u32) << 8) | ((b2 as u32) << 16) | ((b3 as u32) << 24)
}

/// Reading back the four length bytes yields the length they were made of.
pub proof fn lemma_le32_round(n: u32)
    ensures
        le32_val(
            (n & 0xff) as u8,
            ((n >> 8) & 0xff) as u8,
            ((n >> 16) & 0xff) as u8,
            ((n >> 24) & 0xff) as u8,
        ) == n,
{
    assert((((n & 0xff) as u8) as u32) | (((((n >> 8) & 0xff) as u8) as u32) << 8) | (((((n
        >> 16) & 0xff) as u8) as u32) << 16) | (((((n >> 24) & 0xff) as u8) as u32) << 24)
        == n) by (bit_vector);
}

// --- encoding ---

pub open spec fn enc_entry(tag: u8, v: Option<Seq<u8>>) -> Seq<u8> {
    match v {
        None => Seq::empty(),
        Some(s) => seq![tag] + le32_bytes(s.len() as u32) + s,
    }
}

pub open spec fn spec_encode(p: PayloadV) -> Seq<u8> {
    seq![CODEC_VERSION] + enc_entry(TAG_CSRF, p.csrf) + enc_entry(TAG_NEXT, p.next) + enc_entry(
        TAG_USER,
        p.user,
    )
}

fn encode_entry(out: &mut Vec<u8>, tag: u8, v: &Option<Vec<u8>>)
    requires
        opt_wf(opt_bytes_view(*v)),
    ensures
        final(out)@ == old(out)@ + enc_entry(tag, opt_bytes_view(*v)),
{
    match v {
        None => {
            assert(out@ =~= old(out)@ + enc_entry(tag, opt_bytes_view(*v)));
        },
        Some(s) => {
            out.push(tag);
            let m: u32 = s.len() as u32;
            proof {
                assert(m & 0xff < 256) by (bit_vector);
                assert((m >> 8) & 0xff < 256) by (bit_vector);
                assert((m >> 16) & 0xff < 256) by (bit_vector);
                assert((m >> 24) & 0xff < 256) by (bit_vector);
            }
            out.push((m & 0xff) as u8);
            out.push(((m >> 8) & 0xff) as u8);
            out.push(((m >> 16) & 0xff) as u8);
            out.push(((m >> 24) & 0xff) as u8);
            append_bytes(out, s.as_slice());
            assert(out@ =~= old(out)@ + enc_entry(tag, opt_bytes_view(*v)));
        },
    }
}

/// Serializes a payload. A pure transform of the entries; the inverse of
/// [`decode`] on everything it produces.
pub fn encode(p: &SessionPayload) -> (r: Vec<u8>)
    requires
        payload_wf(p@),
    ensures
        r@ == spec_encode(p@),
{
    let mut out: Vec<u8> = Vec::new();
    out.push(CODEC_VERSION);
    encode_entry(&mut out, TAG_CSRF, &p.csrf_token);
    encode_entry(&mut out, TAG_NEXT, &p.next_url);
    encode_entry(&mut out, TAG_USER, &p.user_id);
    proof {
        assert(out@ =~= spec_encode(p@));
    }
    out
}

// --- decoding ---

/// Folds one decoded entry into the payload read so far. Entries with an
/// unknown tag are ignored; a repeated tag overwrites, so the last entry
/// wins.
pub open spec fn apply_entry(acc: PayloadV, tag: u8, v: Seq<u8>) -> PayloadV {
    if tag == TAG_CSRF {
        PayloadV { csrf: Some(v), ..acc }
    } else if tag == TAG_NEXT {
        PayloadV { next: Some(v), ..acc }
    } else if tag == TAG_USER {
        PayloadV { user: Some(v), ..acc }
    } else {
        acc
    }
}

/// What decoding the entry section of a payload yields, entry by entry.
/// `None` is a malformed section: a truncated entry header or a length
/// that runs past the end.
pub open spec fn spec_decode_entries(b: Seq<u8>, acc: PayloadV) -> Option<PayloadV>
    decreases b.len(),
{
    if b.len() == 0 {
        Some(acc)
    } else if b.len() < 5 {
        None
    } else {
        let n = le32_val(b[1], b[2], b[3], b[4]) as int;
        if 5 + n > b.len() {
            None
        } else {
            spec_decode_entries(
                b.subrange(5 + n, b.len() as int),
                apply_entry(acc, b[0], b.subrange(5, 5 + n)),
            )
        }
    }
}

/// What decoding a whole blob yields: `None` unless it starts with the
/// version this codec writes and every entry is well-formed.
pub open spec fn spec_decode(b: Seq<u8>) -> Option<PayloadV> {
    if b.len() == 0 || b[0] != CODEC_VERSION {
        None
    } else {
        spec_decode_entries(b.skip(1), empty_payload())
    }
}

/// Deserializes a payload. Fails with a distinct error value — never a
/// panic — exactly on the blobs that [`spec_decode`] rejects.
pub fn decode(b: &[u8]) -> (r: Result<SessionPayload, DecodeError>)
    ensures
        match spec_decode(b@) {
            Some(p) => r matches Ok(q) && q@ == p,
            None => r matches Err(e) && e == DecodeError::Corrupt,
        },
{
    if b.len() == 0 || b[0] != CODEC_VERSION {
        return Err(DecodeError::Corrupt);
    }
    let mut acc = SessionPayload::empty();
    let mut i: usize = 1;
    proof {
        assert(b@.subrange(1, b@.len() as int) =~= b@.skip(1));
    }
    while i < b.len()
        invariant
            1 <= i <= b@.len(),
            b@.len() > 0,
            b@[0] == CODEC_VERSION,
            spec_decode(b@) == spec_decode_entries(
                b@.subrange(i as int, b@.len() as int),
                acc@,
            ),
        decreases b@.len() - i,
    {
        let ghost pre = b@.subrange(i as int, b@.len() as int);
        let rem = b.len() - i;
        if rem < 5 {
            return Err(DecodeError::Corrupt);
        }
        let tag = b[i];
        let n32 = le32_val_exec(b[i + 1], b[i + 2], b[i + 3], b[i + 4]);
        let n = n32 as usize;
        if rem - 5 < n {
            proof {
                assert(5 + (n as int) > pre.len());
            }
            return Err(DecodeError::Corrupt);
        }
        let blen: usize = b.len();
        let mut val: Vec<u8> = Vec::new();
        let mut j: usize = 0;
        while j < n
            invariant
                j <= n,
                blen == b@.len(),
                i + 5 + n <= blen,
                val@ == b@.subrange(i + 5, i + 5 + j as int),
            decreases n - j,
        {
            val.push(b[i + 5 + j]);
            j += 1;
            assert(val@ =~= b@.subrange(i + 5, i + 5 + j as int));
        }
        proof {
            assert(pre[0] == tag);
            assert(pre[1] == b@[i + 1] && pre[2] == b@[i + 2] && pre[3] == b@[i + 3] && pre[4]
                == b@[i + 4]);
            assert(pre.subrange(5, 5 + n as int) =~= b@.subrange(i + 5, i + 5 + n as int));
            assert(pre.subrange(5 + n as int, pre.len() as int) =~= b@.subrange(
                i + 5 + n as int,
                b@.len() as int,
            ));
        }
        if tag == TAG_CSRF {
            acc.csrf_token = Some(val);
        } else if tag == TAG_NEXT {
            acc.next_url = Some(val);
        } else if tag == TAG_USER {
            acc.user_id = Some(val);
        }
        i = i + 5 + n;
    }
    proof {
        assert(b@.subrange(i as int, b@.len() as int) =~= Seq::<u8>::empty());
    }
    Ok(acc)
}

/// Reassembles a four-byte little-endian length.
fn le32_val_exec(b0: u8, b1: u8, b2: u8, b3: u8) -> (r: u32)
    ensures
        r == le32_val(b0, b1, b2, b3),
{
    (b0 as u32) | ((b1 as u32) << 8) | ((b2 as u32) << 16) | ((b3 as u32) << 24)
}

// --- the codec round trip ---

proof fn lemma_decode_one_entry(tag: u8, v: Option<Seq<u8>>, rest: Seq<u8>, acc: PayloadV)
    requires
        opt_wf(v),
    ensures
        spec_decode_entries(enc_entry(tag, v) + rest, acc) == spec_decode_entries(
            rest,
            match v {
                None => acc,
                Some(s) => apply_entry(acc, tag, s),
            },
        ),
{
    match v {
        None => {
            assert(enc_entry(tag, v) + rest =~= rest);
        },
        Some(s) => {
            let b = enc_entry(tag, v) + rest;
            let m = s.len() as u32;
            assert(b.len() == 5 + s.len() + rest.len());
            assert(b[0] == tag);
            assert(b[1] == (m & 0xff) as u8);
            assert(b[2] == ((m >> 8) & 0xff) as u8);
            assert(b[3] == ((m >> 16) & 0xff) as u8);
            assert(b[4] == ((m >> 24) & 0xff) as u8);
            lemma_le32_round(m);
            assert(le32_val(b[1], b[2], b[3], b[4]) == m);
            assert(m as int == s.len());
            assert(b.subrange(5, 5 + s.len() as int) =~= s);
            assert(b.subrange(5 + s.len() as int, b.len() as int) =~= rest);
        },
    }
}

/// The codec round trip: decoding an encoded payload gives the payload
/// back, for every payload whose entries fit their length prefixes.
pub proof fn lemma_encode_decode(p: PayloadV)
    requires
        payload_wf(p),
    ensures
        spec_decode(spec_encode(p)) == Some(p),
{
    let e1 = enc_entry(TAG_CSRF, p.csrf);
    let e2 = enc_entry(TAG_NEXT, p.next);
    let e3 = enc_entry(TAG_USER, p.user);
    let b = spec_encode(p);
    assert(b[0] == CODEC_VERSION);
    assert(b.skip(1) =~= e1 + (e2 + (e3 + Seq::<u8>::empty())));
    let a0 = empty_payload();
    let a1 = match p.csrf {
        None => a0,
        Some(s) => apply_entry(a0, TAG_CSRF, s),
    };
    let a2 = match p.next {
        None => a1,
        Some(s) => apply_entry(a1, TAG_NEXT, s),
    };
    let a3 = match p.user {
        None => a2,
        Some(s) => apply_entry(a2, TAG_USER, s),
    };
    lemma_decode_one_entry(TAG_CSRF, p.csrf, e2 + (e3 + Seq::<u8>::empty()), a0);
    lemma_decode_one_entry(TAG_NEXT, p.next, e3 + Seq::<u8>::empty(), a1);
    lemma_decode_one_entry(TAG_USER, p.user, Seq::<u8>::empty(), a2);
    assert(spec_decode_entries(Seq::<u8>::empty(), a3) == Some(a3));
    assert(a3 == p);
}

} // verus!
