//! Password digests.

use crypto_hash::{hex_digest, Algorithm};
use vstd::prelude::*;
use vstd::utf8::encode_utf8;

verus! {

/// The SHA-256 digest of `data` as lower-case hexadecimal text.
pub uninterp spec fn sha256_hex(data: Seq<u8>) -> Seq<char>;

/// Calls `crypto_hash::hex_digest` with `Algorithm::SHA256`: the result is
/// the digest of the bytes as hexadecimal text, a function of the bytes
/// alone.
#[verifier::external_body]
fn sha256_hex_digest(data: &[u8]) -> (digest: String)
    ensures
        digest@ == sha256_hex(data@),
{
    hex_digest(Algorithm::SHA256, data)
}

/// The digest that is stored for the password `password`: the SHA-256
/// digest of its UTF-8 bytes.
pub open spec fn password_digest(password: Seq<char>) -> Seq<char> {
    sha256_hex(encode_utf8(password))
}

/// The digest that is stored for `password`.
pub fn hash_password(password: &str) -> (digest: String)
    ensures
        digest@ == password_digest(password@),
{
    sha256_hex_digest(password.as_bytes())
}

} // verus!
