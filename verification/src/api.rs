//! Account credentials and request signing. Reading the secret from
//! disk lives outside the library; signing is deterministic given the
//! key material, the message and the clock reading.

use vstd::prelude::*;
use vstd::string::*;

verus! {

/// API credentials: the public key and the account secret.
pub struct Api {
    pub public: String,
    pub secret: String,
}

/// The HMAC-SHA-256 tag of a message under a key; a function of the
/// two byte strings alone.
pub uninterp spec fn hmac_sha256_of(key: Seq<u8>, msg: Seq<u8>) -> Seq<u8>;

/// Relies on ring::hmac::Key::new and ring::hmac::sign with the
/// HMAC_SHA256 algorithm: a deterministic tag of 32 bytes, the output
/// length of SHA-256.
#[verifier::external_body]
fn hmac_sha256(key: &[u8], msg: &[u8]) -> (r: Vec<u8>)
    ensures
        r@ == hmac_sha256_of(key@, msg@),
        r@.len() == 32,
{
    let k = ring::hmac::Key::new(ring::hmac::HMAC_SHA256, key);
    ring::hmac::sign(&k, msg).as_ref().to_vec()
}

/// One lowercase hexadecimal digit.
pub open spec fn hex_digit(d: int) -> char {
    if d == 0 { '0' }
    else if d == 1 { '1' }
    else if d == 2 { '2' }
    else if d == 3 { '3' }
    else if d == 4 { '4' }
    else if d == 5 { '5' }
    else if d == 6 { '6' }
    else if d == 7 { '7' }
    else if d == 8 { '8' }
    else if d == 9 { '9' }
    else if d == 10 { 'a' }
    else if d == 11 { 'b' }
    else if d == 12 { 'c' }
    else if d == 13 { 'd' }
    else if d == 14 { 'e' }
    else { 'f' }
}

/// Two lowercase hex digits per byte, high nibble first.
pub open spec fn spec_hex(bs: Seq<u8>) -> Seq<char> {
    Seq::new(
        bs.len() * 2,
        |i: int|
            if i % 2 == 0 {
                hex_digit((bs[i / 2] as int) / 16)
            } else {
                hex_digit((bs[i / 2] as int) % 16)
            },
    )
}

/// Relies on hex::encode: each byte becomes two lowercase hex digits,
/// high nibble first.
#[verifier::external_body]
fn hex_encode(b: &Vec<u8>) -> (r: String)
    ensures
        r@ == spec_hex(b@),
{
    hex::encode(b)
}

impl Api {
    /// Signs a message: an expiry one second past the given clock
    /// reading, and the hex form of the HMAC-SHA-256 tag of the
    /// message under the account secret.
    pub fn generate_signature(&self, message: String, now_ms: u64) -> (r: (u64, String))
        requires
            now_ms + 1000 <= u64::MAX,
        ensures
            r.0 == now_ms + 1000,
            r.1@ == spec_hex(
                hmac_sha256_of(
                    vstd::utf8::encode_utf8(self.secret@),
                    vstd::utf8::encode_utf8(message@),
                ),
            ),
    {
        let expires = now_ms + 1000;
        let tag = hmac_sha256(self.secret.as_str().as_bytes(), message.as_str().as_bytes());
        let sig = hex_encode(&tag);
        (expires, sig)
    }
}

} // verus!
