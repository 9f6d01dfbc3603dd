//! API-key requests: an HMAC-SHA256 over the resource path, the nonce the
//! store expects and the payload, hex-encoded by the client.

use vstd::prelude::*;
use vstd::utf8::{encode_utf8, encode_utf8_decode_utf8};
use crate::crypto::{hex_encode, hex_of, hmac_sha256, hmac_sha256_of, text_equal};
use crate::error::{outcome_view, AuthError, Failure};

verus! {

/// ASCII decimal digits of `n`, most significant first, without leading zeros.
pub open spec fn decimal(n: nat) -> Seq<u8>
    decreases n,
{
    if n < 10 {
        seq![(48 + n) as u8]
    } else {
        decimal(n / 10).push((48 + n % 10) as u8)
    }
}

/// The canonical message: the UTF-8 bytes of the resource path, the decimal
/// nonce, and the UTF-8 bytes of the payload's compact JSON text.
pub open spec fn api_message(path: Seq<char>, nonce: u64, payload: Seq<char>) -> Seq<u8> {
    encode_utf8(path) + decimal(nonce as nat) + encode_utf8(payload)
}

/// The signature a client must send: the hex HMAC-SHA256 of the canonical message.
pub open spec fn expected_signature(
    secret: Seq<u8>,
    path: Seq<char>,
    nonce: u64,
    payload: Seq<char>,
) -> Seq<char> {
    hex_of(hmac_sha256_of(secret, api_message(path, nonce, payload)))
}

pub open spec fn signature_outcome(
    secret: Seq<u8>,
    path: Seq<char>,
    nonce: u64,
    payload: Seq<char>,
    signature: Seq<char>,
) -> Result<(), Failure> {
    if signature == expected_signature(secret, path, nonce, payload) {
        Ok(())
    } else {
        Err(Failure::InvalidSignature)
    }
}

fn push_decimal(n: u64, out: &mut Vec<u8>)
    ensures
        final(out)@ == old(out)@ + decimal(n as nat),
    decreases n,
{
    if n >= 10 {
        push_decimal(n / 10, out);
    }
    let d = (n % 10) as u8;
    out.push(48 + d);
    assert(final(out)@ =~= old(out)@ + decimal(n as nat));
}

/// Builds the canonical message that a request's signature covers.
pub fn canonical_message(path: &str, nonce: u64, payload: &str) -> (r: Vec<u8>)
    ensures
        r@ == api_message(path@, nonce, payload@),
{
    let mut m = path.as_bytes_vec();
    push_decimal(nonce, &mut m);
    let tail = payload.as_bytes();
    let ghost before = m@;
    m.extend_from_slice(tail);
    assert(m@ =~= before + tail@);
    m
}

/// What an API-key request's signature covers; built afresh for each request.
#[derive(Debug)]
pub struct ApiKeyCandidate {
    pub resource_path: String,
    /// The nonce the store expects for the request's key.
    pub nonce: u64,
    /// Compact JSON text of the payload.
    pub payload: String,
}

impl ApiKeyCandidate {
    /// Checks a hex signature against the canonical message under `secret`,
    /// comparing in time that does not depend on where the texts differ.
    pub fn validate(&self, secret: &[u8], signature: &str) -> (r: Result<(), AuthError>)
        ensures
            outcome_view(r) == signature_outcome(
                secret@,
                self.resource_path@,
                self.nonce,
                self.payload@,
                signature@,
            ),
    {
        let msg = canonical_message(self.resource_path.as_str(), self.nonce, self.payload.as_str());
        let mac = hmac_sha256(secret, msg.as_slice());
        let expected = hex_encode(mac.as_slice());
        if text_equal(expected.as_str(), signature) {
            Ok(())
        } else {
            Err(AuthError::InvalidSignature)
        }
    }
}

proof fn lemma_decimal_injective(a: nat, b: nat)
    requires
        decimal(a) == decimal(b),
    ensures
        a == b,
    decreases a,
{
    if a < 10 && b < 10 {
        assert(decimal(a)[0] == decimal(b)[0]);
        assert(decimal(a)[0] == (48 + a) as u8);
        assert(decimal(b)[0] == (48 + b) as u8);
    } else if a < 10 {
        assert(decimal(a).len() == 1);
        assert(decimal(b).len() == decimal(b / 10).len() + 1);
        lemma_decimal_nonempty(b / 10);
    } else if b < 10 {
        assert(decimal(b).len() == 1);
        assert(decimal(a).len() == decimal(a / 10).len() + 1);
        lemma_decimal_nonempty(a / 10);
    } else {
        assert(decimal(a).drop_last() =~= decimal(a / 10));
        assert(decimal(b).drop_last() =~= decimal(b / 10));
        lemma_decimal_injective(a / 10, b / 10);
        assert(decimal(a).last() == decimal(b).last());
        assert(decimal(a).last() == (48 + a % 10) as u8);
        assert(decimal(b).last() == (48 + b % 10) as u8);
        assert(a % 10 == b % 10);
        assert(a == (a / 10) * 10 + a % 10);
        assert(b == (b / 10) * 10 + b % 10);
    }
}

proof fn lemma_decimal_nonempty(n: nat)
    ensures
        decimal(n).len() >= 1,
    decreases n,
{
    if n >= 10 {
        lemma_decimal_nonempty(n / 10);
    }
}

proof fn lemma_middle_equal(x: Seq<u8>, y1: Seq<u8>, y2: Seq<u8>, z: Seq<u8>)
    requires
        x + y1 + z == x + y2 + z,
    ensures
        y1 == y2,
{
    let s1 = x + y1 + z;
    let s2 = x + y2 + z;
    assert(s1.len() == s2.len());
    assert(y1.len() == y2.len());
    assert(y1 =~= s1.subrange(x.len() as int, (x.len() + y1.len()) as int));
    assert(y2 =~= s2.subrange(x.len() as int, (x.len() + y2.len()) as int));
}

proof fn lemma_utf8_injective(a: Seq<char>, b: Seq<char>)
    requires
        encode_utf8(a) == encode_utf8(b),
    ensures
        a == b,
{
    encode_utf8_decode_utf8(a);
    encode_utf8_decode_utf8(b);
}

/// Changing any one of the resource path, the nonce or the payload, the
/// others kept, changes the canonical message that the signature covers.
pub proof fn lemma_message_binds_each_part(
    path: Seq<char>,
    path2: Seq<char>,
    nonce: u64,
    nonce2: u64,
    payload: Seq<char>,
    payload2: Seq<char>,
)
    ensures
        path != path2 ==> api_message(path, nonce, payload) != api_message(path2, nonce, payload),
        nonce != nonce2 ==> api_message(path, nonce, payload) != api_message(
            path,
            nonce2,
            payload,
        ),
        payload != payload2 ==> api_message(path, nonce, payload) != api_message(
            path,
            nonce,
            payload2,
        ),
{
    let e = Seq::<u8>::empty();
    let d = decimal(nonce as nat);
    if api_message(path, nonce, payload) == api_message(path2, nonce, payload) {
        assert(e + encode_utf8(path) + (d + encode_utf8(payload)) =~= api_message(path, nonce, payload));
        assert(e + encode_utf8(path2) + (d + encode_utf8(payload)) =~= api_message(path2, nonce, payload));
        lemma_middle_equal(e, encode_utf8(path), encode_utf8(path2), d + encode_utf8(payload));
        lemma_utf8_injective(path, path2);
    }
    if api_message(path, nonce, payload) == api_message(path, nonce2, payload) {
        lemma_middle_equal(encode_utf8(path), d, decimal(nonce2 as nat), encode_utf8(payload));
        lemma_decimal_injective(nonce as nat, nonce2 as nat);
    }
    if api_message(path, nonce, payload) == api_message(path, nonce, payload2) {
        assert(encode_utf8(path) + d + encode_utf8(payload) + e =~= api_message(path, nonce, payload));
        assert(encode_utf8(path) + d + encode_utf8(payload2) + e =~= api_message(path, nonce, payload2));
        lemma_middle_equal(encode_utf8(path) + d, encode_utf8(payload), encode_utf8(payload2), e);
        lemma_utf8_injective(payload, payload2);
    }
}

} // verus!
