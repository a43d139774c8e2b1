//! The provider's authorization endpoint and the URL a login is sent to.
//!
//! The authorization URL embeds the client id and the freshly minted
//! anti-forgery token as query parameters, percent-encoded byte for
//! byte, so the token comes back through the provider exactly as it
//! went out.

use vstd::prelude::*;
use vstd::string::StringSliceAdditionalSpecFns;

use crate::byteops::append_bytes;

verus! {

/// A byte that may stand unescaped in a query value: the unreserved
/// characters of a URL.
pub open spec fn is_url_safe(b: u8) -> bool {
    (0x41 <= b <= 0x5a) || (0x61 <= b <= 0x7a) || (0x30 <= b <= 0x39) || b == 0x2d || b == 0x2e
        || b == 0x5f || b == 0x7e
}

/// The digit characters of upper-case hexadecimal.
pub open spec fn hex_digit(n: u8) -> u8 {
    if n < 10 {
        (0x30 + n) as u8
    } else {
        (0x37 + n) as u8
    }
}

/// How one byte is written in a query value.
pub open spec fn pct_byte(b: u8) -> Seq<u8> {
    if is_url_safe(b) {
        seq![b]
    } else {
        seq![0x25u8, hex_digit(b >> 4), hex_digit(b & 0x0f)]
    }
}

/// The percent-encoding of a byte string.
pub open spec fn spec_pct_encode(s: Seq<u8>) -> Seq<u8>
    decreases s.len(),
{
    if s.len() == 0 {
        Seq::empty()
    } else {
        pct_byte(s.first()) + spec_pct_encode(s.drop_first())
    }
}

fn is_url_safe_exec(b: u8) -> (r: bool)
    ensures
        r == is_url_safe(b),
{
    (0x41 <= b && b <= 0x5a) || (0x61 <= b && b <= 0x7a) || (0x30 <= b && b <= 0x39) || b == 0x2d
        || b == 0x2e || b == 0x5f || b == 0x7e
}

fn hex_digit_exec(n: u8) -> (r: u8)
    requires
        n < 16,
    ensures
        r == hex_digit(n),
{
    if n < 10 {
        0x30 + n
    } else {
        0x37 + n
    }
}

/// Percent-encodes a byte string for use as a query value.
pub fn pct_encode(input: &[u8]) -> (r: Vec<u8>)
    ensures
        r@ == spec_pct_encode(input@),
{
    let mut out: Vec<u8> = Vec::new();
    let mut i: usize = 0;
    proof {
        assert(input@.skip(0) =~= input@);
    }
    while i < input.len()
        invariant
            i <= input@.len(),
            spec_pct_encode(input@) == out@ + spec_pct_encode(input@.skip(i as int)),
        decreases input@.len() - i,
    {
        let b = input[i];
        proof {
            assert(input@.skip(i as int).first() == b);
            assert(input@.skip(i as int).drop_first() =~= input@.skip(i + 1));
        }
        if is_url_safe_exec(b) {
            out.push(b);
        } else {
            proof {
                assert(b >> 4 < 16) by (bit_vector);
                assert(b & 0x0f < 16) by (bit_vector);
            }
            out.push(0x25);
            out.push(hex_digit_exec(b >> 4));
            out.push(hex_digit_exec(b & 0x0f));
        }
        i += 1;
    }
    proof {
        assert(input@.skip(input@.len() as int) =~= Seq::<u8>::empty());
    }
    out
}

/// Where and as whom logins are sent to the identity provider.
pub struct ProviderConfig {
    /// The provider's authorization endpoint, an absolute URL.
    pub authorize_endpoint: Vec<u8>,
    /// The public client id this deployment is registered under.
    pub client_id: Vec<u8>,
}

/// The provider configuration at the level contracts speak of.
pub struct ConfigV {
    pub authorize_endpoint: Seq<u8>,
    pub client_id: Seq<u8>,
}

impl View for ProviderConfig {
    type V = ConfigV;

    open spec fn view(&self) -> ConfigV {
        ConfigV { authorize_endpoint: self.authorize_endpoint@, client_id: self.client_id@ }
    }
}

/// The authorization URL for one login attempt: the endpoint, the client
/// id, and the attempt's anti-forgery token as the `state` parameter.
pub open spec fn spec_authorize_url(c: ConfigV, state: Seq<u8>) -> Seq<u8> {
    c.authorize_endpoint + "?response_type=code&client_id=".spec_bytes() + spec_pct_encode(
        c.client_id,
    ) + "&state=".spec_bytes() + spec_pct_encode(state)
}

impl ProviderConfig {
    /// Builds the URL the client is redirected to so the provider can
    /// ask the user to authorize, carrying `state` back to us afterward.
    pub fn authorize_url(&self, state: &[u8]) -> (r: Vec<u8>)
        ensures
            r@ == spec_authorize_url(self@, state@),
    {
        let mut out: Vec<u8> = Vec::new();
        append_bytes(&mut out, self.authorize_endpoint.as_slice());
        append_bytes(&mut out, "?response_type=code&client_id=".as_bytes());
        let enc_id = pct_encode(self.client_id.as_slice());
        append_bytes(&mut out, enc_id.as_slice());
        append_bytes(&mut out, "&state=".as_bytes());
        let enc_state = pct_encode(state);
        append_bytes(&mut out, enc_state.as_slice());
        proof {
            assert(out@ =~= spec_authorize_url(self@, state@));
        }
        out
    }
}

} // verus!
