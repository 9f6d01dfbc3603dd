//! Authentication modes and the dispatch of a request to the matching
//! extraction and validation.

use vstd::prelude::*;
use crate::apikey::{signature_outcome, ApiKeyCandidate};
use crate::error::{outcome_view, Failure, AuthError};
use crate::jwt::{token_outcome, validate_token, ClaimSelector};
use crate::location::{AuthField, AuthHeader, AuthLocation};
use crate::request::{
    extract_token_from_frame, extract_token_from_header, frame_get, frame_member, frame_token,
    header_token, AuthRequest, Frame,
};

verus! {

/// The external nonce store, as the validator sees it. It is only read:
/// advancing a nonce after a successful request is the store's own business.
pub trait NonceLookup {
    /// The nonce that a request signed with `api_key` must cover, or `None`
    /// when the key is unknown (or the store cannot answer).
    fn last_nonce(&self, api_key: &str) -> Option<u64>;
}

/// A store that knows no key, for configurations without API-key mode.
#[derive(Debug)]
pub struct NoNonceStore;

impl NonceLookup for NoNonceStore {
    fn last_nonce(&self, api_key: &str) -> Option<u64> {
        None
    }
}

/// How requests are authenticated.
#[derive(Debug)]
pub enum AuthMode<N> {
    /// A bearer token signed with `signing_secret`.
    JWT { auth_location: AuthLocation, signing_secret: Vec<u8>, validate: ClaimSelector },
    /// An API key whose requests carry an HMAC over `uri_path`, the expected
    /// nonce and the payload.
    APIKey {
        auth_field: AuthField,
        signing_secret: Vec<u8>,
        uri_path: String,
        last_nonce_getter: N,
    },
    /// No authentication: every request passes.
    NoAuth,
}

impl<N> Default for AuthMode<N> {
    fn default() -> (r: Self)
        ensures
            r is NoAuth,
    {
        AuthMode::NoAuth
    }
}

/// The credential that a token mode finds in a request of the matching shape.
pub open spec fn located_token(loc: AuthLocation, req: AuthRequest) -> Result<Seq<char>, Failure> {
    match (loc, req) {
        (AuthLocation::Header(h), AuthRequest::HttpHeader(hs)) => header_token(
            h.field@,
            h.bounds(),
            hs@,
        ),
        (AuthLocation::FrameField(f), AuthRequest::StructuredFrame(fr)) => frame_token(
            f.key_or_token@,
            fr,
        ),
        _ => Err(Failure::InvalidRequestShape),
    }
}

/// Outcome of token mode on a request.
pub open spec fn jwt_outcome(
    loc: AuthLocation,
    secret: Seq<u8>,
    sel: ClaimSelector,
    req: AuthRequest,
    now: u64,
) -> Result<(), Failure> {
    match located_token(loc, req) {
        Err(e) => Err(e),
        Ok(t) => token_outcome(secret, t, sel, now),
    }
}

/// Outcome of API-key mode on a frame, given what the nonce store answered
/// for the frame's key. Key and signature are read first, then the nonce is
/// consulted, then the payload is read and the signature checked.
pub open spec fn apikey_outcome(
    fields: AuthField,
    secret: Seq<u8>,
    path: Seq<char>,
    frame: Frame,
    nonce: Option<u64>,
) -> Result<(), Failure> {
    match frame_token(fields.key_or_token@, frame) {
        Err(e) => Err(e),
        Ok(_) => match frame_token(fields.sign->Some_0@, frame) {
            Err(e) => Err(e),
            Ok(sig) => match nonce {
                None => Err(Failure::InvalidCredential),
                Some(n) => match frame {
                    Frame::Value(_) => Err(Failure::InvalidRequestShape),
                    Frame::Object(ms) => match frame_get(ms@, fields.payload->Some_0@) {
                        None => Err(Failure::MissingField(fields.payload->Some_0@)),
                        Some(v) => signature_outcome(secret, path, n, v.json@, sig),
                    },
                },
            },
        },
    }
}

/// Validates an API-key frame once the store has answered `nonce` for its key.
pub fn validate_apikey_frame(
    fields: &AuthField,
    secret: &[u8],
    path: &str,
    frame: &Frame,
    nonce: Option<u64>,
) -> (r: Result<(), AuthError>)
    requires
        fields.sign is Some,
        fields.payload is Some,
    ensures
        outcome_view(r) == apikey_outcome(*fields, secret@, path@, *frame, nonce),
{
    if let Err(e) = extract_token_from_frame(fields.key_or_token.as_str(), frame) {
        return Err(e);
    }
    let sign_field = match &fields.sign {
        Some(s) => s.as_str(),
        None => return Err(AuthError::InvalidRequestShape),
    };
    let signature = match extract_token_from_frame(sign_field, frame) {
        Ok(s) => s,
        Err(e) => return Err(e),
    };
    let n = match nonce {
        Some(n) => n,
        None => return Err(AuthError::InvalidCredential),
    };
    let ms = match frame {
        Frame::Object(ms) => ms,
        Frame::Value(_) => return Err(AuthError::InvalidRequestShape),
    };
    let payload_field = match &fields.payload {
        Some(p) => p.as_str(),
        None => return Err(AuthError::InvalidRequestShape),
    };
    match frame_member(ms, payload_field) {
        None => Err(AuthError::MissingField(String::from_str(payload_field))),
        Some(v) => {
            let candidate = ApiKeyCandidate {
                resource_path: String::from_str(path),
                nonce: n,
                payload: v.json.clone(),
            };
            candidate.validate(secret, signature.as_str())
        },
    }
}

/// An unknown API key is rejected as such whatever the signature, once the
/// key and signature fields are readable.
pub proof fn lemma_unknown_key_rejected(
    fields: AuthField,
    secret: Seq<u8>,
    path: Seq<char>,
    frame: Frame,
)
    requires
        frame_token(fields.key_or_token@, frame) is Ok,
        frame_token(fields.sign->Some_0@, frame) is Ok,
    ensures
        apikey_outcome(fields, secret, path, frame, None) == Err::<(), Failure>(
            Failure::InvalidCredential,
        ),
{
}

impl<N> AuthMode<N> {
    /// The request has the shape this mode reads, and API-key mode names its
    /// signature and payload fields. Anything else is a wiring fault of the
    /// caller, not a credential failure.
    pub open spec fn accepts(&self, req: &AuthRequest) -> bool {
        match self {
            AuthMode::NoAuth => true,
            AuthMode::JWT { auth_location, .. } => match (auth_location, req) {
                (AuthLocation::Header(_), AuthRequest::HttpHeader(_)) => true,
                (AuthLocation::FrameField(_), AuthRequest::StructuredFrame(_)) => true,
                _ => false,
            },
            AuthMode::APIKey { auth_field, .. } => req is StructuredFrame && auth_field.sign is Some
                && auth_field.payload is Some,
        }
    }

    /// Token mode reading `Authorization: Bearer <token>`, signed with
    /// `secret`, checking no claim beyond the signature.
    pub open spec fn is_default_jwt(&self, secret: Seq<u8>) -> bool {
        match self {
            AuthMode::JWT { auth_location, signing_secret, validate } => {
                &&& signing_secret@ == secret
                &&& !validate.selects_any()
                &&& auth_location matches AuthLocation::Header(h)
                &&& h.field@ == "Authorization"@
                &&& h.bounds() == (Some("Bearer "@), None::<Seq<char>>)
            },
            _ => false,
        }
    }

    /// Token mode with an `Authorization: Bearer <token>` header and no claim
    /// checks beyond the signature.
    pub fn default_jwt_from(signing_secret: &[u8]) -> (r: Self)
        ensures
            r.is_default_jwt(signing_secret@),
    {
        let h = AuthHeader {
            field: String::from_str("Authorization"),
            token_bound: (Some(String::from_str("Bearer ")), None),
        };
        AuthMode::JWT {
            auth_location: AuthLocation::Header(h),
            signing_secret: vstd::slice::slice_to_vec(signing_secret),
            validate: ClaimSelector::disable_all(),
        }
    }
}

impl<N: NonceLookup> AuthMode<N> {
    /// Decides whether `request` carries valid credentials at time `now`
    /// (seconds since the Unix epoch).
    pub fn validate(&self, request: &AuthRequest, now: u64) -> (r: Result<(), AuthError>)
        requires
            self.accepts(request),
        ensures
            self is NoAuth ==> r is Ok,
            self matches AuthMode::JWT { auth_location, signing_secret, validate } ==> outcome_view(r)
                == jwt_outcome(*auth_location, signing_secret@, *validate, *request, now),
            self matches AuthMode::APIKey { auth_field, signing_secret, uri_path, .. } ==> (
            request matches AuthRequest::StructuredFrame(frame) && exists|n: Option<u64>|
                outcome_view(r) == apikey_outcome(
                    *auth_field,
                    signing_secret@,
                    uri_path@,
                    *frame,
                    n,
                )),
    {
        match self {
            AuthMode::NoAuth => Ok(()),
            AuthMode::JWT { auth_location, signing_secret, validate } => {
                let token = match (auth_location, request) {
                    (AuthLocation::Header(h), AuthRequest::HttpHeader(hs)) => {
                        extract_token_from_header(h, hs)
                    },
                    (AuthLocation::FrameField(f), AuthRequest::StructuredFrame(fr)) => {
                        extract_token_from_frame(f.key_or_token.as_str(), fr)
                    },
                    _ => Err(AuthError::InvalidRequestShape),
                };
                match token {
                    Err(e) => Err(e),
                    Ok(t) => validate_token(signing_secret.as_slice(), t.as_str(), validate, now),
                }
            },
            AuthMode::APIKey { auth_field, signing_secret, uri_path, last_nonce_getter } => {
                let frame = match request {
                    AuthRequest::StructuredFrame(f) => f,
                    AuthRequest::HttpHeader(_) => return Err(AuthError::InvalidRequestShape),
                };
                let key = match extract_token_from_frame(auth_field.key_or_token.as_str(), frame) {
                    Ok(k) => k,
                    Err(e) => {
                        let r = Err(e);
                        assert(outcome_view(r) == apikey_outcome(
                            *auth_field,
                            signing_secret@,
                            uri_path@,
                            *frame,
                            None,
                        ));
                        return r;
                    },
                };
                let nonce = last_nonce_getter.last_nonce(key.as_str());
                validate_apikey_frame(
                    auth_field,
                    signing_secret.as_slice(),
                    uri_path.as_str(),
                    frame,
                    nonce,
                )
            },
        }
    }
}

} // verus!
