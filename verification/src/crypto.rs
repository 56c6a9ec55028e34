//! Authenticated encryption of the private token payload.
//!
//! The cipher is XChaCha20-Poly1305 from the `chacha20poly1305` crate: a
//! 32-byte key, a 24-byte nonce, associated data that is authenticated but
//! not encrypted, and a 16-byte tag appended to the ciphertext.  The cipher
//! itself is trusted; everything around it is verified against the
//! `spec_seal` name below.

use vstd::prelude::*;

use chacha20poly1305::XChaCha20Poly1305;
use chacha20poly1305::aead::{AeadInPlace, KeyInit};

verus! {

/// Number of bytes in a token-protection or session key.
pub const KEY_LEN: usize = 32;

/// Number of bytes in an encryption nonce.
pub const NONCE_LEN: usize = 24;

/// Number of bytes in the authentication tag appended to a ciphertext.
pub const TAG_LEN: usize = 16;

/// The bytes that sealing `plaintext` under `key`, `nonce` and the
/// associated data `aad` produces.  The function is determined by its
/// arguments alone; its value is the cipher's business and is never spelled
/// out here.
pub uninterp spec fn spec_seal(key: Seq<u8>, nonce: Seq<u8>, aad: Seq<u8>, plaintext: Seq<u8>) -> Seq<u8>;

#[verifier::external_type_specification]
#[verifier::external_body]
pub struct ExAeadError(chacha20poly1305::aead::Error);

/// Relies on `chacha20poly1305`: `XChaCha20Poly1305::encrypt_in_place`
/// encrypts the buffer under the key and nonce, authenticates it together
/// with the associated data, and appends the 16-byte tag.  The result is a
/// function of the four inputs alone.
#[verifier::external_body]
pub(crate) fn aead_seal(
    key: &[u8; 32],
    nonce: &[u8; 24],
    aad: &[u8],
    plaintext: Vec<u8>,
) -> (r: Result<Vec<u8>, chacha20poly1305::aead::Error>)
    ensures
        r is Ok ==> r->Ok_0@ == spec_seal(key@, nonce@, aad@, plaintext@),
        r is Ok ==> r->Ok_0@.len() == plaintext@.len() + 16,
{
    let cipher = XChaCha20Poly1305::new(chacha20poly1305::Key::from_slice(key));
    let mut buffer = plaintext;
    cipher.encrypt_in_place(chacha20poly1305::XNonce::from_slice(nonce), aad, &mut buffer)?;
    Ok(buffer)
}

/// Relies on `chacha20poly1305`: `XChaCha20Poly1305::decrypt_in_place`
/// returns the original plaintext of a buffer that was sealed under the
/// same key, nonce and associated data, and an error when the tag does not
/// authenticate the buffer against them.
#[verifier::external_body]
pub(crate) fn aead_open(
    key: &[u8; 32],
    nonce: &[u8; 24],
    aad: &[u8],
    ciphertext: Vec<u8>,
) -> (r: Result<Vec<u8>, chacha20poly1305::aead::Error>)
    ensures
        r is Ok ==> ciphertext@ == spec_seal(key@, nonce@, aad@, r->Ok_0@),
        forall|pt: Seq<u8>|
            ciphertext@ == #[trigger] spec_seal(key@, nonce@, aad@, pt) ==> r is Ok
                && r->Ok_0@ == pt,
{
    let cipher = XChaCha20Poly1305::new(chacha20poly1305::Key::from_slice(key));
    let mut buffer = ciphertext;
    cipher.decrypt_in_place(chacha20poly1305::XNonce::from_slice(nonce), aad, &mut buffer)?;
    Ok(buffer)
}

} // verus!
