//! Transport-agnostic request authentication: credential location templates,
//! extraction from header sets and structured frames, bearer-token (HS256)
//! claim validation and API-key HMAC validation with an external nonce store.

pub mod apikey;
pub mod crypto;
pub mod error;
pub mod jwt;
pub mod location;
pub mod mode;
pub mod request;
pub mod text;
