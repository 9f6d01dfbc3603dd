//! Calls into the hashing, encoding and JSON crates, with what is relied on.

use vstd::prelude::*;

verus! {

/// HMAC-SHA256 tag of `msg` under `key`.
pub uninterp spec fn hmac_sha256_of(key: Seq<u8>, msg: Seq<u8>) -> Seq<u8>;

/// Bytes that an unpadded base64url text decodes to, or `None` when the
/// text is not such an encoding.
pub uninterp spec fn b64url_decoded(s: Seq<char>) -> Option<Seq<u8>>;

/// What member `key` of the JSON document `doc` holds.
pub uninterp spec fn json_member_of(doc: Seq<u8>, key: Seq<char>) -> JsonMember;

/// Lower-case hex digit of a value below 16.
pub open spec fn hex_digit(v: u8) -> char {
    seq!['0', '1', '2', '3', '4', '5', '6', '7', '8', '9', 'a', 'b', 'c', 'd', 'e', 'f'][v as int]
}

/// Lower-case hex text of `b`, two digits per byte, high nibble first.
pub open spec fn hex_of(b: Seq<u8>) -> Seq<char> {
    Seq::new(
        2 * b.len(),
        |i: int|
            if i % 2 == 0 {
                hex_digit(b[i / 2] / 16)
            } else {
                hex_digit(b[i / 2] % 16)
            },
    )
}

/// A member of a JSON document, as far as claim checks read it.
#[derive(Debug)]
pub enum JsonMember {
    /// The document is not JSON.
    NotJson,
    /// The document has no such member (or is not an object).
    Absent,
    /// A number that fits in a `u64`.
    Unsigned(u64),
    /// A string.
    Text(String),
    /// Any other value.
    Other,
}

/// Relies on `hmac::Hmac<sha2::Sha256>`: the tag is a function of key and
/// message, 32 bytes long; `new_from_slice` accepts keys of any length.
#[verifier::external_body]
pub(crate) fn hmac_sha256(key: &[u8], msg: &[u8]) -> (r: Vec<u8>)
    ensures
        r@ == hmac_sha256_of(key@, msg@),
        r@.len() == 32,
{
    let mut mac = match <hmac::Hmac<sha2::Sha256> as hmac::Mac>::new_from_slice(key) {
        Ok(m) => m,
        Err(_) => return Vec::new(),
    };
    hmac::Mac::update(&mut mac, msg);
    hmac::Mac::finalize(mac).into_bytes().to_vec()
}

/// Relies on base64's `URL_SAFE_NO_PAD` engine: decoding depends on the text alone.
#[verifier::external_body]
pub(crate) fn b64url_decode(s: &str) -> (r: Option<Vec<u8>>)
    ensures
        match r {
            Some(v) => b64url_decoded(s@) == Some(v@),
            None => b64url_decoded(s@) is None,
        },
{
    base64::Engine::decode(&base64::engine::general_purpose::URL_SAFE_NO_PAD, s).ok()
}

/// Relies on `hex::encode`: two lower-case digits per byte, high nibble first.
#[verifier::external_body]
pub(crate) fn hex_encode(b: &[u8]) -> (r: String)
    ensures
        r@ == hex_of(b@),
{
    hex::encode(b)
}

/// Relies on `serde_json::from_slice` and `Value::get`: what a member holds
/// depends on the document and the key alone.
#[verifier::external_body]
pub(crate) fn json_member(doc: &[u8], key: &str) -> (r: JsonMember)
    ensures
        r == json_member_of(doc@, key@),
{
    match serde_json::from_slice::<serde_json::Value>(doc) {
        Err(_) => JsonMember::NotJson,
        Ok(v) => match v.get(key) {
            None => JsonMember::Absent,
            Some(serde_json::Value::String(s)) => JsonMember::Text(s.clone()),
            Some(serde_json::Value::Number(n)) => match n.as_u64() {
                Some(u) => JsonMember::Unsigned(u),
                None => JsonMember::Other,
            },
            Some(_) => JsonMember::Other,
        },
    }
}

/// Compares two byte strings in time that depends on their lengths only.
pub fn bytes_equal(a: &[u8], b: &[u8]) -> (r: bool)
    ensures
        r == (a@ == b@),
{
    if a.len() != b.len() {
        return false;
    }
    let mut same = true;
    let mut i: usize = 0;
    while i < a.len()
        invariant
            a@.len() == b@.len(),
            i <= a@.len(),
            same == (forall|j: int| 0 <= j < i ==> a@[j] == b@[j]),
        decreases a@.len() - i,
    {
        let eq = a[i] == b[i];
        same = same && eq;
        i = i + 1;
    }
    assert(same ==> a@ =~= b@);
    same
}

/// Compares two texts in time that depends on their lengths only.
pub fn text_equal(a: &str, b: &str) -> (r: bool)
    ensures
        r == (a@ == b@),
{
    let n = a.unicode_len();
    if n != b.unicode_len() {
        return false;
    }
    let mut same = true;
    let mut i: usize = 0;
    while i < n
        invariant
            n == a@.len(),
            n == b@.len(),
            i <= n,
            same == (forall|j: int| 0 <= j < i ==> a@[j] == b@[j]),
        decreases n - i,
    {
        let eq = a.get_char(i) == b.get_char(i);
        same = same && eq;
        i = i + 1;
    }
    assert(same ==> a@ =~= b@);
    same
}

} // verus!
