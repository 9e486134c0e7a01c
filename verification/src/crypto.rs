//! The cryptographic provider boundary: the platform digest (SM3), the
//! keyed digest used for evidence authentication, and the secure random
//! source for nonce generation.

use vstd::prelude::*;

verus! {

/// The 32-byte platform digest of a byte string; the value depends on the
/// input bytes alone.
pub uninterp spec fn sm3_of(msg: Seq<u8>) -> Seq<u8>;

/// The 32-byte keyed authentication tag over `msg` under `key`; the value
/// depends on the key and message bytes alone.
pub uninterp spec fn hmac_sm3_of(key: Seq<u8>, msg: Seq<u8>) -> Seq<u8>;

/// Relies on openssl's `Hasher` with `MessageDigest::sm3`: the digest is a
/// function of the hashed bytes alone and is 32 bytes long.
#[verifier::external_body]
pub(crate) fn sm3_bytes(msg: &[u8]) -> (r: Option<[u8; 32]>)
    ensures
        r matches Some(h) ==> h@ == sm3_of(msg@),
{
    let mut hasher = match openssl::hash::Hasher::new(openssl::hash::MessageDigest::sm3()) {
        Ok(h) => h,
        Err(_) => return None,
    };
    if hasher.update(msg).is_err() {
        return None;
    }
    let digest = match hasher.finish() {
        Ok(d) => d,
        Err(_) => return None,
    };
    <[u8; 32]>::try_from(digest.as_ref()).ok()
}

/// Relies on openssl's `PKey::hmac` and `Signer` with `MessageDigest::sm3`:
/// the tag is a function of the key and message bytes alone, 32 bytes long.
/// `PKey::hmac` asserts that the key length fits the provider's 32-bit
/// count, so keys beyond that machine limit are excluded here.
#[verifier::external_body]
pub(crate) fn hmac_sm3(key: &[u8], msg: &[u8]) -> (r: Option<Vec<u8>>)
    requires
        key@.len() <= 0x7fff_ffff,
    ensures
        r matches Some(t) ==> t@ == hmac_sm3_of(key@, msg@) && t@.len() == 32,
{
    let pkey = match openssl::pkey::PKey::hmac(key) {
        Ok(k) => k,
        Err(_) => return None,
    };
    let mut signer = match openssl::sign::Signer::new(openssl::hash::MessageDigest::sm3(), &pkey) {
        Ok(s) => s,
        Err(_) => return None,
    };
    if signer.update(msg).is_err() {
        return None;
    }
    signer.sign_to_vec().ok()
}

/// Relies on `rand::random`: one byte from the thread-local cryptographically
/// secure generator; nothing is promised of its value.
#[verifier::external_body]
pub(crate) fn random_byte() -> u8 {
    rand::random::<u8>()
}

/// Draws a fresh 16-byte mnonce from the secure random source.
///
/// Nothing can be stated of the value: every caller must work for every
/// possible mnonce.
pub fn generate_mnonce() -> [u8; 16] {
    let mut n = [0u8; 16];
    let mut i: usize = 0;
    while i < 16
        invariant
            0 <= i <= 16,
        decreases 16 - i,
    {
        n[i] = random_byte();
        i += 1;
    }
    n
}

/// Decides whether a computed authentication tag equals the stored one.
///
/// This is where a check on concrete values reaches the comparison logic:
/// the caller hands in whatever the keyed-digest provider returned.
pub fn tag_matches(tag: &[u8], mac: &[u8; 32]) -> (r: bool)
    ensures
        r == (tag@ == mac@),
{
    crate::util::bytes_eq(tag, mac.as_slice())
}

} // verus!
