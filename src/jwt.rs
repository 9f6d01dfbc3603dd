//! Bearer tokens signed with HMAC-SHA256 (compact JWS form) and the
//! selective checks of their claims.

use vstd::prelude::*;
use vstd::utf8::encode_utf8;
use crate::crypto::{
    b64url_decode, b64url_decoded, bytes_equal, hmac_sha256, hmac_sha256_of, json_member,
    json_member_of, JsonMember,
};
use crate::error::{outcome_view, text_outcome_view, AuthError, Failure};
use crate::location::opt_view;

verus! {

pub open spec fn exp_name() -> Seq<char> {
    seq!['e', 'x', 'p']
}

pub open spec fn nbf_name() -> Seq<char> {
    seq!['n', 'b', 'f']
}

pub open spec fn iss_name() -> Seq<char> {
    seq!['i', 's', 's']
}

pub open spec fn aud_name() -> Seq<char> {
    seq!['a', 'u', 'd']
}

pub open spec fn token_name() -> Seq<char> {
    seq!['t', 'o', 'k', 'e', 'n']
}

pub open spec fn claims_name() -> Seq<char> {
    seq!['c', 'l', 'a', 'i', 'm', 's']
}

/// Which claims are enforced beyond the signature. Claims not selected are
/// never read.
#[derive(Debug)]
pub struct ClaimSelector {
    /// Reject tokens whose `exp` is not after the current time.
    pub exp: bool,
    /// Reject tokens whose `nbf` is after the current time.
    pub nbf: bool,
    /// Required `iss`, if any.
    pub iss: Option<String>,
    /// Required `aud`, if any.
    pub aud: Option<String>,
}

impl ClaimSelector {
    pub open spec fn selects_any(&self) -> bool {
        self.exp || self.nbf || self.iss is Some || self.aud is Some
    }

    /// Signature-only validation.
    pub fn disable_all() -> (r: ClaimSelector)
        ensures
            !r.exp,
            !r.nbf,
            r.iss is None,
            r.aud is None,
    {
        ClaimSelector { exp: false, nbf: false, iss: None, aud: None }
    }

    /// Also enforce the expiry claim.
    pub fn with_expiry(self) -> (r: ClaimSelector)
        ensures
            r.exp,
            r.nbf == self.nbf,
            opt_view(r.iss) == opt_view(self.iss),
            opt_view(r.aud) == opt_view(self.aud),
    {
        ClaimSelector { exp: true, ..self }
    }

    /// Also enforce the not-before claim.
    pub fn with_not_before(self) -> (r: ClaimSelector)
        ensures
            r.nbf,
            r.exp == self.exp,
            opt_view(r.iss) == opt_view(self.iss),
            opt_view(r.aud) == opt_view(self.aud),
    {
        ClaimSelector { nbf: true, ..self }
    }

    /// Also require the issuer claim to be `iss`.
    pub fn with_issuer(self, iss: &str) -> (r: ClaimSelector)
        ensures
            opt_view(r.iss) == Some(iss@),
            r.exp == self.exp,
            r.nbf == self.nbf,
            opt_view(r.aud) == opt_view(self.aud),
    {
        ClaimSelector { iss: Some(String::from_str(iss)), ..self }
    }

    /// Also require the audience claim to be `aud`.
    pub fn with_audience(self, aud: &str) -> (r: ClaimSelector)
        ensures
            opt_view(r.aud) == Some(aud@),
            r.exp == self.exp,
            r.nbf == self.nbf,
            opt_view(r.iss) == opt_view(self.iss),
    {
        ClaimSelector { aud: Some(String::from_str(aud)), ..self }
    }
}

/// `s` has dots at `i` and `j` and nowhere else: `header.claims.signature`.
pub open spec fn dots_at(s: Seq<char>, i: int, j: int) -> bool {
    0 <= i < j < s.len() && s[i] == '.' && s[j] == '.' && forall|k: int|
        0 <= k < s.len() && #[trigger] s[k] == '.' ==> k == i || k == j
}

pub open spec fn has_three_parts(s: Seq<char>) -> bool {
    exists|i: int, j: int| dots_at(s, i, j)
}

/// Checks the signature of `token` under `secret`; on success, the encoded
/// claims part.
pub open spec fn signature_check(secret: Seq<u8>, token: Seq<char>) -> Result<Seq<char>, Failure> {
    if !has_three_parts(token) {
        Err(Failure::Malformed(token_name()))
    } else {
        let (i, j) = choose|i: int, j: int| dots_at(token, i, j);
        match b64url_decoded(token.subrange(j + 1, token.len() as int)) {
            None => Err(Failure::Malformed(token_name())),
            Some(sig) => if sig == hmac_sha256_of(secret, encode_utf8(token.subrange(0, j))) {
                Ok(token.subrange(i + 1, j))
            } else {
                Err(Failure::InvalidSignature)
            },
        }
    }
}

pub open spec fn exp_check(doc: Seq<u8>, now: u64) -> Result<(), Failure> {
    match json_member_of(doc, exp_name()) {
        JsonMember::Unsigned(e) => if now >= e {
            Err(Failure::Expired)
        } else {
            Ok(())
        },
        _ => Err(Failure::Malformed(exp_name())),
    }
}

pub open spec fn nbf_check(doc: Seq<u8>, now: u64) -> Result<(), Failure> {
    match json_member_of(doc, nbf_name()) {
        JsonMember::Unsigned(b) => if now < b {
            Err(Failure::NotYetValid)
        } else {
            Ok(())
        },
        _ => Err(Failure::Malformed(nbf_name())),
    }
}

pub open spec fn text_claim_check(doc: Seq<u8>, name: Seq<char>, expected: Seq<char>) -> Result<
    (),
    Failure,
> {
    match json_member_of(doc, name) {
        JsonMember::Text(t) => if t@ == expected {
            Ok(())
        } else {
            Err(Failure::ClaimMismatch(name))
        },
        _ => Err(Failure::ClaimMismatch(name)),
    }
}

/// The selected claim checks on the decoded claims `doc`, in the order
/// expiry, not-before, issuer, audience; the first failure wins.
pub open spec fn claims_check(doc: Seq<u8>, sel: ClaimSelector, now: u64) -> Result<(), Failure> {
    if sel.exp && exp_check(doc, now) is Err {
        exp_check(doc, now)
    } else if sel.nbf && nbf_check(doc, now) is Err {
        nbf_check(doc, now)
    } else if sel.iss is Some && text_claim_check(doc, iss_name(), sel.iss->Some_0@) is Err {
        text_claim_check(doc, iss_name(), sel.iss->Some_0@)
    } else if sel.aud is Some && text_claim_check(doc, aud_name(), sel.aud->Some_0@) is Err {
        text_claim_check(doc, aud_name(), sel.aud->Some_0@)
    } else {
        Ok(())
    }
}

/// The outcome of validating `token` under `secret` with the selected
/// claims, at time `now` (seconds since the Unix epoch).
pub open spec fn token_outcome(secret: Seq<u8>, token: Seq<char>, sel: ClaimSelector, now: u64) -> Result<
    (),
    Failure,
> {
    match signature_check(secret, token) {
        Err(e) => Err(e),
        Ok(claims) => if !sel.selects_any() {
            Ok(())
        } else {
            match b64url_decoded(claims) {
                None => Err(Failure::Malformed(claims_name())),
                Some(doc) => claims_check(doc, sel, now),
            }
        },
    }
}

/// Positions of the two dots of a three-part token.
fn find_dots(token: &str) -> (r: Option<(usize, usize)>)
    ensures
        r matches Some((i, j)) ==> dots_at(token@, i as int, j as int),
        r is None ==> !has_three_parts(token@),
{
    let n = token.unicode_len();
    let mut first: Option<usize> = None;
    let mut second: Option<usize> = None;
    let mut k: usize = 0;
    while k < n
        invariant
            n == token@.len(),
            k <= n,
            second is Some ==> first is Some,
            first matches Some(f) ==> f < k && token@[f as int] == '.',
            second matches Some(g) ==> first->Some_0 < g < k && token@[g as int] == '.',
            forall|x: int|
                0 <= x < k && #[trigger] token@[x] == '.' ==> (first == Some(x as usize)) || (
                second == Some(x as usize)),
        decreases n - k,
    {
        if token.get_char(k) == '.' {
            if first.is_none() {
                first = Some(k);
            } else if second.is_none() {
                second = Some(k);
            } else {
                proof {
                    let f = first->Some_0 as int;
                    let g = second->Some_0 as int;
                    assert forall|i: int, j: int| !dots_at(token@, i, j) by {
                        if dots_at(token@, i, j) {
                            assert(token@[f] == '.' && token@[g] == '.' && token@[k as int]
                                == '.');
                        }
                    };
                }
                return None;
            }
        }
        k = k + 1;
    }
    match (first, second) {
        (Some(f), Some(g)) => {
            assert(dots_at(token@, f as int, g as int));
            Some((f, g))
        },
        _ => {
            proof {
                assert forall|i: int, j: int| !dots_at(token@, i, j) by {
                    if dots_at(token@, i, j) {
                        assert(token@[i] == '.' && token@[j] == '.');
                    }
                };
            }
            None
        },
    }
}

fn field_name(s: &str) -> (r: String)
    ensures
        r@ == s@,
{
    String::from_str(s)
}

/// Checks the signature of `token` under `secret` and returns the encoded
/// claims part.
pub fn verify_signature(secret: &[u8], token: &str) -> (r: Result<String, AuthError>)
    ensures
        text_outcome_view(r) == signature_check(secret@, token@),
{
    proof {
        reveal_strlit("token");
        assert("token"@ =~= token_name());
    }
    let (i, j) = match find_dots(token) {
        Some(p) => p,
        None => return Err(AuthError::Malformed(field_name("token"))),
    };
    proof {
        let (a, b) = choose|a: int, b: int| dots_at(token@, a, b);
        assert(token@[a] == '.' && token@[b] == '.');
        assert(a == i && b == j);
    }
    let n = token.unicode_len();
    let sig = match b64url_decode(token.substring_char(j + 1, n)) {
        Some(s) => s,
        None => return Err(AuthError::Malformed(field_name("token"))),
    };
    let signing_input = token.substring_char(0, j);
    let mac = hmac_sha256(secret, signing_input.as_bytes());
    if !bytes_equal(sig.as_slice(), mac.as_slice()) {
        return Err(AuthError::InvalidSignature);
    }
    Ok(String::from_str(token.substring_char(i + 1, j)))
}

fn check_text_claim(doc: &[u8], name: &str, expected: &String) -> (r: Result<(), AuthError>)
    ensures
        outcome_view(r) == text_claim_check(doc@, name@, expected@),
{
    match json_member(doc, name) {
        JsonMember::Text(t) => if t == *expected {
            Ok(())
        } else {
            Err(AuthError::ClaimMismatch(field_name(name)))
        },
        _ => Err(AuthError::ClaimMismatch(field_name(name))),
    }
}

/// Applies the selected claim checks to the decoded claims `doc`.
pub fn check_claims(doc: &[u8], sel: &ClaimSelector, now: u64) -> (r: Result<(), AuthError>)
    ensures
        outcome_view(r) == claims_check(doc@, *sel, now),
{
    proof {
        reveal_strlit("exp");
        reveal_strlit("nbf");
        reveal_strlit("iss");
        reveal_strlit("aud");
        assert("exp"@ =~= exp_name());
        assert("nbf"@ =~= nbf_name());
        assert("iss"@ =~= iss_name());
        assert("aud"@ =~= aud_name());
    }
    if sel.exp {
        match json_member(doc, "exp") {
            JsonMember::Unsigned(e) => if now >= e {
                return Err(AuthError::Expired);
            },
            _ => return Err(AuthError::Malformed(field_name("exp"))),
        }
    }
    if sel.nbf {
        match json_member(doc, "nbf") {
            JsonMember::Unsigned(b) => if now < b {
                return Err(AuthError::NotYetValid);
            },
            _ => return Err(AuthError::Malformed(field_name("nbf"))),
        }
    }
    if let Some(iss) = &sel.iss {
        let c = check_text_claim(doc, "iss", iss);
        if c.is_err() {
            return c;
        }
    }
    if let Some(aud) = &sel.aud {
        let c = check_text_claim(doc, "aud", aud);
        if c.is_err() {
            return c;
        }
    }
    Ok(())
}

/// Validates a bearer token: its HMAC-SHA256 signature under `secret`, then
/// the claims that `sel` selects, at time `now` (seconds since the Unix epoch).
pub fn validate_token(secret: &[u8], token: &str, sel: &ClaimSelector, now: u64) -> (r: Result<
    (),
    AuthError,
>)
    ensures
        outcome_view(r) == token_outcome(secret@, token@, *sel, now),
{
    let claims = match verify_signature(secret, token) {
        Ok(c) => c,
        Err(e) => return Err(e),
    };
    if !(sel.exp || sel.nbf || sel.iss.is_some() || sel.aud.is_some()) {
        return Ok(());
    }
    proof {
        reveal_strlit("claims");
        assert("claims"@ =~= claims_name());
    }
    match b64url_decode(claims.as_str()) {
        None => Err(AuthError::Malformed(field_name("claims"))),
        Some(doc) => check_claims(doc.as_slice(), sel, now),
    }
}

/// With no claim selected, a token is accepted exactly when its signature
/// verifies, whatever its claims say; a token whose signature does not
/// match is rejected as such.
pub proof fn lemma_signature_only(secret: Seq<u8>, token: Seq<char>, sel: ClaimSelector, now: u64)
    requires
        !sel.selects_any(),
    ensures
        token_outcome(secret, token, sel, now) is Ok <==> signature_check(secret, token) is Ok,
        signature_check(secret, token) == Err::<Seq<char>, Failure>(Failure::InvalidSignature)
            ==> token_outcome(secret, token, sel, now) == Err::<(), Failure>(
            Failure::InvalidSignature,
        ),
{
}

/// With expiry selected, a correctly signed token whose expiry is not after
/// `now` is rejected as expired.
pub proof fn lemma_expired_rejected(
    secret: Seq<u8>,
    token: Seq<char>,
    sel: ClaimSelector,
    now: u64,
    doc: Seq<u8>,
    exp: u64,
)
    requires
        sel.exp,
        signature_check(secret, token) matches Ok(claims) && b64url_decoded(claims) == Some(doc),
        json_member_of(doc, exp_name()) == JsonMember::Unsigned(exp),
        exp <= now,
    ensures
        token_outcome(secret, token, sel, now) == Err::<(), Failure>(Failure::Expired),
{
}

} // verus!
