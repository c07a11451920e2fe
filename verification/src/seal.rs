//! Sealing secrets in memory with XChaCha20-Poly1305.
use vstd::prelude::*;
use chacha20poly1305::aead::{Aead, AeadCore, KeyInit, OsRng};
use chacha20poly1305::{Key, XChaCha20Poly1305, XNonce};

verus! {

/// Length of an XChaCha20-Poly1305 key, in bytes.
pub const KEY_LEN: usize = 32;

/// Length of an XChaCha20-Poly1305 nonce, in bytes.
pub const NONCE_LEN: usize = 24;

/// The sealed form (ciphertext followed by the tag) of `plaintext` under
/// `key` and `nonce`.
pub uninterp spec fn xchacha_seal(key: Seq<u8>, nonce: Seq<u8>, plaintext: Seq<u8>) -> Seq<u8>;

/// What opening `sealed` under `key` and `nonce` gives: the plaintext, or
/// nothing when the tag does not check.
pub uninterp spec fn xchacha_open(key: Seq<u8>, nonce: Seq<u8>, sealed: Seq<u8>) -> Option<Seq<u8>>;

/// Whether a plaintext of `len` bytes is below the cipher's limit (fewer
/// than `u32::MAX` blocks of 64 bytes).
pub open spec fn within_aead_limit(len: nat) -> bool {
    len / 64 < 0xffff_ffff
}

/// A fresh random key.
///
/// Calls `XChaCha20Poly1305::generate_key` with the operating system's
/// random number generator; the key is random, of `KEY_LEN` bytes.
#[verifier::external_body]
pub(crate) fn random_key() -> (key: Vec<u8>)
    ensures
        key@.len() == KEY_LEN,
{
    XChaCha20Poly1305::generate_key(&mut OsRng).to_vec()
}

/// A fresh random nonce.
///
/// Calls `XChaCha20Poly1305::generate_nonce` with the operating system's
/// random number generator; the nonce is random, of `NONCE_LEN` bytes.
#[verifier::external_body]
pub(crate) fn random_nonce() -> (nonce: Vec<u8>)
    ensures
        nonce@.len() == NONCE_LEN,
{
    XChaCha20Poly1305::generate_nonce(&mut OsRng).to_vec()
}

/// Seals `plaintext` under `key` and `nonce`.
///
/// Calls `Aead::encrypt` of `XChaCha20Poly1305`. The crate refuses only a
/// plaintext of `u32::MAX` or more 64-byte blocks, which `requires` leaves
/// out. The result is named `xchacha_seal`, and opening it under the same
/// key and nonce gives the plaintext back (the crate's documented round
/// trip).
#[verifier::external_body]
pub(crate) fn seal(key: &[u8], nonce: &[u8], plaintext: &[u8]) -> (sealed: Vec<u8>)
    requires
        key@.len() == KEY_LEN,
        nonce@.len() == NONCE_LEN,
        within_aead_limit(plaintext@.len()),
    ensures
        sealed@ == xchacha_seal(key@, nonce@, plaintext@),
        xchacha_open(key@, nonce@, sealed@) == Some(plaintext@),
{
    match XChaCha20Poly1305::new(Key::from_slice(key)).encrypt(XNonce::from_slice(nonce), plaintext) {
        Ok(c) => c,
        Err(_) => Vec::new(),
    }
}

/// Opens `sealed` under `key` and `nonce`.
///
/// Calls `Aead::decrypt` of `XChaCha20Poly1305`; its answer is named
/// `xchacha_open`.
#[verifier::external_body]
pub(crate) fn open(key: &[u8], nonce: &[u8], sealed: &[u8]) -> (plaintext: Option<Vec<u8>>)
    requires
        key@.len() == KEY_LEN,
        nonce@.len() == NONCE_LEN,
    ensures
        match plaintext {
            Some(p) => xchacha_open(key@, nonce@, sealed@) == Some(p@),
            None => xchacha_open(key@, nonce@, sealed@) is None,
        },
{
    XChaCha20Poly1305::new(Key::from_slice(key)).decrypt(XNonce::from_slice(nonce), sealed).ok()
}

} // verus!
