//! Trusted boundary to the cryptographic collaborators: signature
//! verification, random nonce material, and base64 text.
//!
//! Each function here makes one outside call; its contract states what the
//! called code's source shows, and nothing else in the crate is trusted.

use vstd::prelude::*;

verus! {

#[verifier::external_type_specification]
#[verifier::external_body]
pub struct ExErrorStack(openssl::error::ErrorStack);

/// What SHA-256 signature checking yields for a PEM-encoded public key, a
/// message and a signature: `None` when the key material cannot be decoded
/// or used with this digest, otherwise whether the signature matches.  The
/// outcome is a function of the three inputs alone.
pub uninterp spec fn sig_check(pem: Seq<char>, message: Seq<char>, signature: Seq<u8>) -> Option<bool>;

/// Relies on openssl's `PKey::public_key_from_pem`, `Verifier::new` with
/// the SHA-256 digest, and `Verifier::verify_oneshot`: decoding and
/// verification are deterministic in the key, message and signature bytes,
/// and verification has no effect beyond its result.
#[verifier::external_body]
pub(crate) fn check_signature(pem: &str, message: &str, signature: &[u8]) -> (r: Result<
    bool,
    openssl::error::ErrorStack,
>)
    ensures
        r is Ok <==> sig_check(pem@, message@, signature@) is Some,
        r is Ok ==> Some(r->Ok_0) == sig_check(pem@, message@, signature@),
{
    let key = openssl::pkey::PKey::public_key_from_pem(pem.as_bytes())?;
    let mut verifier = openssl::sign::Verifier::new(openssl::hash::MessageDigest::sha256(), &key)?;
    verifier.verify_oneshot(signature, message.as_bytes())
}

/// Relies on openssl's `rand::rand_bytes`: it fills the buffer with
/// cryptographically strong bytes, of which nothing further can be said.
/// The call asserts that the buffer length fits a C `int`, so larger
/// requests are excluded here.
#[verifier::external_body]
pub(crate) fn random_bytes(n: usize) -> (r: Result<Vec<u8>, openssl::error::ErrorStack>)
    requires
        n <= 0x7fff_ffff,
    ensures
        r is Ok ==> r->Ok_0@.len() == n,
{
    let mut buf = vec![0u8; n];
    openssl::rand::rand_bytes(&mut buf)?;
    Ok(buf)
}

/// The standard, padded base64 text of a byte sequence: a function of the
/// bytes alone.
pub uninterp spec fn base64_of(bytes: Seq<u8>) -> Seq<char>;

/// Relies on `base64::encode` (standard alphabet, with padding): the text
/// depends on the input bytes alone, and each started 3-byte group becomes
/// exactly 4 characters.
#[verifier::external_body]
pub(crate) fn base64_encode(bytes: &[u8]) -> (r: String)
    ensures
        r@ == base64_of(bytes@),
        r@.len() == 4 * ((bytes@.len() + 2) / 3),
{
    base64::encode(bytes)
}

} // verus!
