//! Reasons a request is rejected.

use vstd::prelude::*;

verus! {

/// Why a request was not authenticated.
#[derive(Debug)]
pub enum AuthError {
    /// The named header or frame field is absent.
    MissingField(String),
    /// The named field is present but cannot be read as required.
    Malformed(String),
    /// A structured frame was not an object.
    InvalidRequestShape,
    /// A token signature or an API-key MAC did not match.
    InvalidSignature,
    /// The token's expiry claim is not in the future.
    Expired,
    /// The token's not-before claim is in the future.
    NotYetValid,
    /// The named claim differs from the configured value.
    ClaimMismatch(String),
    /// The API key is unknown to the nonce store.
    InvalidCredential,
}

/// The mathematical value of an [`AuthError`].
pub enum Failure {
    MissingField(Seq<char>),
    Malformed(Seq<char>),
    InvalidRequestShape,
    InvalidSignature,
    Expired,
    NotYetValid,
    ClaimMismatch(Seq<char>),
    InvalidCredential,
}

impl View for AuthError {
    type V = Failure;

    open spec fn view(&self) -> Failure {
        match self {
            AuthError::MissingField(s) => Failure::MissingField(s@),
            AuthError::Malformed(s) => Failure::Malformed(s@),
            AuthError::InvalidRequestShape => Failure::InvalidRequestShape,
            AuthError::InvalidSignature => Failure::InvalidSignature,
            AuthError::Expired => Failure::Expired,
            AuthError::NotYetValid => Failure::NotYetValid,
            AuthError::ClaimMismatch(s) => Failure::ClaimMismatch(s@),
            AuthError::InvalidCredential => Failure::InvalidCredential,
        }
    }
}

impl AuthError {
    /// A short human-readable description, suitable for an "unauthorized" reply.
    pub fn message(&self) -> (r: String)
        ensures
            self matches AuthError::MissingField(f) ==> r@ == "missing field: "@ + f@,
            self matches AuthError::Malformed(f) ==> r@ == "malformed field: "@ + f@,
            self matches AuthError::ClaimMismatch(c) ==> r@ == "claim mismatch: "@ + c@,
            self is InvalidRequestShape ==> r@ == "request must be an object"@,
            self is InvalidSignature ==> r@ == "invalid signature"@,
            self is Expired ==> r@ == "token expired"@,
            self is NotYetValid ==> r@ == "token not yet valid"@,
            self is InvalidCredential ==> r@ == "invalid credential"@,
    {
        let mut r = String::new();
        match self {
            AuthError::MissingField(f) => {
                r.append("missing field: ");
                r.append(f.as_str());
            },
            AuthError::Malformed(f) => {
                r.append("malformed field: ");
                r.append(f.as_str());
            },
            AuthError::InvalidRequestShape => r.append("request must be an object"),
            AuthError::InvalidSignature => r.append("invalid signature"),
            AuthError::Expired => r.append("token expired"),
            AuthError::NotYetValid => r.append("token not yet valid"),
            AuthError::ClaimMismatch(c) => {
                r.append("claim mismatch: ");
                r.append(c.as_str());
            },
            AuthError::InvalidCredential => r.append("invalid credential"),
        }
        r
    }
}

/// The view of a validation outcome.
pub open spec fn outcome_view(r: Result<(), AuthError>) -> Result<(), Failure> {
    match r {
        Ok(()) => Ok(()),
        Err(e) => Err(e@),
    }
}

/// The view of an extraction outcome.
pub open spec fn text_outcome_view(r: Result<String, AuthError>) -> Result<Seq<char>, Failure> {
    match r {
        Ok(s) => Ok(s@),
        Err(e) => Err(e@),
    }
}

} // verus!
