//! Hashing and transfer encodings.
//!
//! SHA-256, URL-safe base64 and the JSON reader are provided by the `sha2`,
//! `base64` and `serde_json` crates. Their results are named here by
//! uninterpreted functions; the small wrappers below are the only places
//! where the crate relies on those libraries without proof.

use base64::Engine;
use sha2::Digest;
use vstd::prelude::*;

verus! {

/// The SHA-256 digest of `data`.
pub uninterp spec fn sha256_digest(data: Seq<u8>) -> Seq<u8>;

/// The unpadded URL-safe base64 text of `data`.
pub uninterp spec fn base64url_nopad(data: Seq<u8>) -> Seq<char>;

/// The bytes that unpadded URL-safe base64 `text` decodes to, if it is well formed.
pub uninterp spec fn base64url_nopad_decoded(text: Seq<char>) -> Option<Seq<u8>>;

/// The integer value of the top-level member `member` of the JSON document
/// `payload`, if the document parses and has such a member.
pub uninterp spec fn json_integer(payload: Seq<u8>, member: Seq<char>) -> Option<i64>;

/// The UTF-8 encoding of `s`.
pub open spec fn utf8(s: Seq<char>) -> Seq<u8> {
    vstd::utf8::encode_utf8(s)
}

/// The characters of the unpadded URL-safe base64 alphabet.
pub open spec fn is_base64url_char(c: char) -> bool {
    ('A' <= c && c <= 'Z') || ('a' <= c && c <= 'z') || ('0' <= c && c <= '9') || c == '-' || c
        == '_'
}

/// The number of characters of the unpadded base64 text of `n` bytes: four
/// for every three bytes, and two or three for one or two bytes that are
/// left over.
pub open spec fn base64url_len(n: nat) -> nat {
    4 * (n / 3) + if n % 3 == 0 {
        0nat
    } else {
        n % 3 + 1
    }
}

/// Whether decoding the base64 text of `data` gives `data` back.
pub open spec fn base64_round_trips(data: Seq<u8>) -> bool {
    base64url_nopad_decoded(base64url_nopad(data)) == Some(data)
}

/// Whether the base64 text of `n` bytes can be allocated: its length is
/// within the largest size of an allocation.
pub open spec fn is_encodable(n: nat) -> bool {
    base64url_len(n) <= isize::MAX
}

/// `sha2::Sha256::digest`: the result is the SHA-256 digest of `data`, which
/// is always 32 bytes long.
#[verifier::external_body]
pub(crate) fn sha256(data: &[u8]) -> (r: Vec<u8>)
    ensures
        r@ == sha256_digest(data@),
        r@.len() == 32,
{
    sha2::Sha256::digest(data).to_vec()
}

/// `base64::Engine::encode` on `URL_SAFE_NO_PAD`: the result is the base64
/// text of `data`, written in the URL-safe alphabet without padding, four
/// characters for every three bytes and two or three for a rest of one or
/// two; decoding that text gives `data` back. The encoder fails on an input
/// whose text would be longer than an allocation can be.
#[verifier::external_body]
pub(crate) fn base64url_encode(data: &[u8]) -> (r: String)
    requires
        is_encodable(data@.len()),
    ensures
        r@ == base64url_nopad(data@),
        r@.len() == base64url_len(data@.len()),
        forall|i: int| 0 <= i < r@.len() ==> is_base64url_char(#[trigger] r@[i]),
        base64url_nopad_decoded(r@) == Some(data@),
{
    base64::engine::general_purpose::URL_SAFE_NO_PAD.encode(data)
}

/// `base64::Engine::decode` on `URL_SAFE_NO_PAD`: `Some` with the decoded
/// bytes when `text` is well-formed unpadded URL-safe base64, `None` when the
/// decoder rejects it.
#[verifier::external_body]
pub(crate) fn base64url_decode(text: &str) -> (r: Option<Vec<u8>>)
    ensures
        match r {
            Some(bytes) => base64url_nopad_decoded(text@) == Some(bytes@),
            None => base64url_nopad_decoded(text@) is None,
        },
{
    match base64::engine::general_purpose::URL_SAFE_NO_PAD.decode(text) {
        Ok(bytes) => Some(bytes),
        Err(_) => None,
    }
}

/// `serde_json::from_slice` into a `serde_json::Value`, then `Value::get`
/// and `Value::as_i64`: the member `member` of the document as a signed
/// 64-bit integer, or `None` when the bytes are not JSON, the member is
/// missing, or it is not such an integer.
#[verifier::external_body]
pub(crate) fn json_integer_member(payload: &[u8], member: &str) -> (r: Option<i64>)
    ensures
        r == json_integer(payload@, member@),
{
    match serde_json::from_slice::<serde_json::Value>(payload) {
        Ok(value) => value.get(member).and_then(serde_json::Value::as_i64),
        Err(_) => None,
    }
}

/// `rand::TryRngCore::try_fill_bytes` on `rand::rngs::OsRng`, for `len`
/// bytes: `None` when the operating system's generator fails. Nothing is
/// known of the bytes but their number. The buffer is allocated first, so
/// `len` is within the largest size of an allocation.
#[verifier::external_body]
pub(crate) fn os_random(len: usize) -> (r: Option<Vec<u8>>)
    requires
        len <= isize::MAX,
    ensures
        r matches Some(bytes) ==> bytes@.len() == len,
{
    let mut bytes = vec![0u8; len];
    match rand::TryRngCore::try_fill_bytes(&mut rand::rngs::OsRng, bytes.as_mut_slice()) {
        Ok(()) => Some(bytes),
        Err(_) => None,
    }
}

/// The SHA-256 digest of `text`'s UTF-8 bytes, in unpadded URL-safe base64.
pub open spec fn hash_opaque_id_spec(text: Seq<char>) -> Seq<char> {
    base64url_nopad(sha256_digest(utf8(text)))
}

/// Hashes an identifier so that it can be logged or used as part of a key
/// without revealing it.
pub fn hash_opaque_id(value: &str) -> (r: String)
    ensures
        r@ == hash_opaque_id_spec(value@),
        r@.len() == 43,
        forall|i: int| 0 <= i < r@.len() ==> is_base64url_char(#[trigger] r@[i]),
        base64_round_trips(sha256_digest(utf8(value@))),
{
    let digest = sha256(value.as_bytes());
    base64url_encode(digest.as_slice())
}

} // verus!
