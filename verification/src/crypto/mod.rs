//! ChaCha20-Poly1305 encryption of secret values.
use vstd::prelude::*;

use chacha20poly1305::aead::Aead;
use chacha20poly1305::{ChaCha20Poly1305, KeyInit};

pub mod helper;

verus! {

broadcast use vstd::array::group_array_axioms;

/// A ChaCha20-Poly1305 key (256 bits).
pub type Key = [u8; 32];

/// A ChaCha20-Poly1305 nonce (96 bits).
pub type Nonce = [u8; 12];

#[verifier::external_type_specification]
#[verifier::external_body]
pub struct ExAeadError(chacha20poly1305::aead::Error);

/// Why a key could not be built, or a message sealed or opened.
#[derive(Debug, Clone, Copy, PartialEq, Eq, Structural)]
pub enum CryptoError {
    /// The bytes offered as a key were not exactly 32.
    InvalidKeyLength,
    /// The cipher refused: on sealing, a message too long for its block
    /// counter; on opening, a ciphertext that does not authenticate.
    Aead,
}

/// The ciphertext (message followed by its 16-byte tag) that
/// ChaCha20-Poly1305 produces for `plaintext` under `key` and `nonce`, with
/// no associated data.
pub uninterp spec fn chacha20poly1305_seal(key: Seq<u8>, nonce: Seq<u8>, plaintext: Seq<u8>) -> Seq<u8>;

/// What ChaCha20-Poly1305 recovers from `ciphertext` under `key` and
/// `nonce`, with no associated data: the message when the tag
/// authenticates, else nothing.
pub uninterp spec fn chacha20poly1305_open(key: Seq<u8>, nonce: Seq<u8>, ciphertext: Seq<u8>) -> Option<Seq<u8>>;

/// The cipher's 32-bit block counter covers a message of `len` bytes.
pub open spec fn within_block_limit(len: nat) -> bool {
    len / 64 < 0xffff_ffff
}

/// The message of an error, as displayed.
pub open spec fn crypto_error_message(e: CryptoError) -> Seq<char> {
    match e {
        CryptoError::InvalidKeyLength => "key must be exactly 32 bytes"@,
        CryptoError::Aead => "aead::Error"@,
    }
}

impl CryptoError {
    /// The message of the error, as displayed.
    pub fn to_string(&self) -> (r: String)
        ensures
            r@ == crypto_error_message(*self),
    {
        match self {
            CryptoError::InvalidKeyLength => String::from_str("key must be exactly 32 bytes"),
            CryptoError::Aead => String::from_str("aead::Error"),
        }
    }
}

/// `Aead::encrypt` of `ChaCha20Poly1305` with no associated data. It fails
/// exactly when the message is too long for the block counter; the
/// ciphertext is the message's length plus the 16-byte tag, and opening it
/// with the same key and nonce gives the message back.
#[verifier::external_body]
fn aead_seal(key: &Key, nonce: &Nonce, plaintext: &[u8]) -> (r: Result<Vec<u8>, chacha20poly1305::aead::Error>)
    ensures
        r is Ok <==> within_block_limit(plaintext@.len()),
        r matches Ok(ct) ==> {
            &&& ct@ == chacha20poly1305_seal(key@, nonce@, plaintext@)
            &&& ct@.len() == plaintext@.len() + 16
            &&& chacha20poly1305_open(key@, nonce@, ct@) == Some(plaintext@)
        },
{
    ChaCha20Poly1305::new(&chacha20poly1305::Key::from(*key)).encrypt(
        &chacha20poly1305::Nonce::from(*nonce),
        plaintext,
    )
}

/// `Aead::decrypt` of `ChaCha20Poly1305` with no associated data. It fails
/// on a ciphertext shorter than the 16-byte tag.
#[verifier::external_body]
fn aead_open(key: &Key, nonce: &Nonce, ciphertext: &[u8]) -> (r: Result<Vec<u8>, chacha20poly1305::aead::Error>)
    ensures
        match r {
            Ok(p) => chacha20poly1305_open(key@, nonce@, ciphertext@) == Some(p@),
            Err(_) => chacha20poly1305_open(key@, nonce@, ciphertext@) is None,
        },
        ciphertext@.len() < 16 ==> r is Err,
{
    ChaCha20Poly1305::new(&chacha20poly1305::Key::from(*key)).decrypt(
        &chacha20poly1305::Nonce::from(*nonce),
        ciphertext,
    )
}

/// Seals `plaintext` under `key` with the given nonce. The ciphertext opens
/// back to `plaintext` under the same key and nonce.
pub fn encrypt_with_nonce(key: &Key, nonce: &Nonce, plaintext: &[u8]) -> (r: Result<Vec<u8>, CryptoError>)
    ensures
        match r {
            Ok(ct) => {
                &&& within_block_limit(plaintext@.len())
                &&& ct@ == chacha20poly1305_seal(key@, nonce@, plaintext@)
                &&& ct@.len() == plaintext@.len() + 16
                &&& chacha20poly1305_open(key@, nonce@, ct@) == Some(plaintext@)
            },
            Err(e) => !within_block_limit(plaintext@.len()) && e == CryptoError::Aead,
        },
{
    match aead_seal(key, nonce, plaintext) {
        Ok(ct) => Ok(ct),
        Err(_) => Err(CryptoError::Aead),
    }
}

/// Seals `plaintext` under `key` with a fresh random nonce, and returns the
/// nonce with the ciphertext. The ciphertext opens back to `plaintext` under
/// the same key and the returned nonce.
pub fn encrypt(key: &Key, plaintext: Vec<u8>) -> (r: Result<(Nonce, Vec<u8>), CryptoError>)
    ensures
        match r {
            Ok((nonce, ct)) => {
                &&& within_block_limit(plaintext@.len())
                &&& ct@ == chacha20poly1305_seal(key@, nonce@, plaintext@)
                &&& ct@.len() == plaintext@.len() + 16
                &&& chacha20poly1305_open(key@, nonce@, ct@) == Some(plaintext@)
            },
            Err(e) => !within_block_limit(plaintext@.len()) && e == CryptoError::Aead,
        },
{
    let nonce = helper::gen_nonce();
    match encrypt_with_nonce(key, &nonce, plaintext.as_slice()) {
        Ok(ct) => Ok((nonce, ct)),
        Err(e) => Err(e),
    }
}

/// Opens `ciphertext` under `key` and `nonce`; fails when it does not
/// authenticate.
pub fn decrypt(key: &Key, ciphertext: Vec<u8>, nonce: &Nonce) -> (r: Result<Vec<u8>, CryptoError>)
    ensures
        match r {
            Ok(p) => chacha20poly1305_open(key@, nonce@, ciphertext@) == Some(p@),
            Err(e) => chacha20poly1305_open(key@, nonce@, ciphertext@) is None && e == CryptoError::Aead,
        },
        ciphertext@.len() < 16 ==> r is Err,
{
    match aead_open(key, nonce, ciphertext.as_slice()) {
        Ok(p) => Ok(p),
        Err(_) => Err(CryptoError::Aead),
    }
}

} // verus!
