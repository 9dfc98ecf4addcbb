//! Key and nonce generation, and keys from raw bytes.
use vstd::prelude::*;

use chacha20poly1305::aead::{AeadCore, OsRng};
use chacha20poly1305::{ChaCha20Poly1305, KeyInit};

use super::{CryptoError, Key, Nonce};

verus! {

broadcast use vstd::array::group_array_axioms;

/// `ChaCha20Poly1305::generate_nonce` from the operating system's random
/// source. Nothing is claimed of the bytes.
#[verifier::external_body]
pub fn gen_nonce() -> Nonce {
    ChaCha20Poly1305::generate_nonce(&mut OsRng).into()
}

/// `ChaCha20Poly1305::generate_key` from the operating system's random
/// source. Nothing is claimed of the bytes.
#[verifier::external_body]
pub fn gen_key() -> Key {
    ChaCha20Poly1305::generate_key(&mut OsRng).into()
}

/// The key made of `bytes`, which must be exactly 32.
pub fn key_from(bytes: Vec<u8>) -> (r: Result<Key, CryptoError>)
    ensures
        match r {
            Ok(key) => bytes@.len() == 32 && key@ == bytes@,
            Err(e) => bytes@.len() != 32 && e == CryptoError::InvalidKeyLength,
        },
{
    if bytes.len() != 32 {
        return Err(CryptoError::InvalidKeyLength);
    }
    let mut key: Key = [0u8; 32];
    let mut i: usize = 0;
    while i < 32
        invariant
            bytes@.len() == 32,
            i <= 32,
            forall|k: int| 0 <= k < i ==> key@[k] == bytes@[k],
        decreases 32 - i,
    {
        key[i] = bytes[i];
        i = i + 1;
    }
    assert(key@ =~= bytes@);
    Ok(key)
}

} // verus!
