//! Calls into the cryptographic and entropy primitives that the signer
//! needs.  Each function here wraps exactly one outside call; everything
//! around these calls is verified.
use vstd::prelude::*;

verus! {

/// The HMAC-SHA1 digest of a message under a key.  The digest is a function
/// of the key and the message alone; nothing here states what its bytes are.
pub uninterp spec fn hmac_sha1_of(key: Seq<u8>, message: Seq<u8>) -> Seq<u8>;

/// Relies on `hmac_sha1::hmac_sha1`: the 20-byte HMAC-SHA1 digest of the
/// message under the key, a function of its two arguments alone.
#[verifier::external_body]
pub fn hmac_sha1_digest(key: &Vec<u8>, message: &Vec<u8>) -> (r: Vec<u8>)
    ensures
        r@ == hmac_sha1_of(key@, message@),
        r@.len() == 20,
{
    hmac_sha1::hmac_sha1(key.as_slice(), message.as_slice()).to_vec()
}

/// The base64 rendering (standard alphabet, with padding) of a byte
/// sequence, as ASCII bytes.
pub uninterp spec fn base64_of(bytes: Seq<u8>) -> Seq<u8>;

/// Relies on `base64::encode`: the standard-alphabet, padded base64 form of
/// the input, a function of the input bytes alone; its bytes are ASCII.
#[verifier::external_body]
pub fn base64_encode(bytes: &Vec<u8>) -> (r: Vec<u8>)
    ensures
        r@ == base64_of(bytes@),
        forall|i: int| 0 <= i < r@.len() ==> r@[i] < 128,
{
    base64::encode(bytes.as_slice()).into_bytes()
}

/// Relies on `uuid::Uuid::new_v4` and its `Display` form: a fresh random
/// identifier, rendered hyphenated as 36 ASCII chars.  The value is random;
/// nothing relates it to earlier or later calls.
#[verifier::external_body]
pub fn fresh_nonce() -> (r: String)
    ensures
        r@.len() == 36,
        vstd::utf8::is_ascii_chars(r@),
{
    uuid::Uuid::new_v4().to_string()
}

/// Relies on `std::time::SystemTime::now`: the current Unix time, converted
/// to whole seconds.  The value depends on the clock; nothing is stated
/// about it.
#[verifier::external_body]
pub fn unix_timestamp_secs() -> (r: u64) {
    match std::time::SystemTime::now().duration_since(std::time::UNIX_EPOCH) {
        Ok(d) => d.as_secs(),
        Err(_) => 0,
    }
}

} // verus!
