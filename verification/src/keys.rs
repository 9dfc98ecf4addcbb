//! The encryption key kept in the operating system's keyring, stored there
//! as standard base64. The keyring itself is reached by the caller; this
//! module decides what its answer means.
use vstd::prelude::*;

use base64::engine::general_purpose::STANDARD;
use base64::Engine;
use vstd::utf8::encode_utf8;

use crate::crypto::helper::{gen_key, key_from};
use crate::crypto::{CryptoError, Key};

verus! {

broadcast use vstd::array::group_array_axioms;

#[verifier::external_type_specification]
#[verifier::external_body]
pub struct ExDecodeError(base64::DecodeError);

/// The standard base64 text (with padding) of `bytes`.
pub uninterp spec fn base64_standard_encode(bytes: Seq<u8>) -> Seq<char>;

/// The bytes that the standard base64 text `input` stands for, or nothing
/// when it is not valid standard base64.
pub uninterp spec fn base64_standard_decode(input: Seq<u8>) -> Option<Seq<u8>>;

/// `Engine::encode` of the standard engine. Decoding its text gives the
/// bytes back.
#[verifier::external_body]
fn base64_encode(bytes: &[u8]) -> (r: String)
    requires
        bytes@.len() < usize::MAX / 2,
    ensures
        r@ == base64_standard_encode(bytes@),
        base64_standard_decode(encode_utf8(r@)) == Some(bytes@),
{
    STANDARD.encode(bytes)
}

/// `Engine::decode` of the standard engine.
#[verifier::external_body]
fn base64_decode(input: &[u8]) -> (r: Result<Vec<u8>, base64::DecodeError>)
    ensures
        match r {
            Ok(v) => base64_standard_decode(input@) == Some(v@),
            Err(_) => base64_standard_decode(input@) is None,
        },
{
    STANDARD.decode(input)
}

/// `DecodeError`'s `Display` text. Nothing is claimed of the text.
#[verifier::external_body]
fn decode_error_text(err: &base64::DecodeError) -> String {
    err.to_string()
}

/// What the keyring answered when asked for the key.
#[derive(Debug, Clone, PartialEq, Eq)]
pub enum KeyLookup {
    /// The stored text.
    Found(String),
    /// No key is stored yet.
    NoEntry,
    /// The keyring failed, with its message.
    Failed(String),
}

/// Where the key in use comes from.
#[derive(Debug, Clone, PartialEq, Eq)]
pub enum KeySource {
    /// The key read from the keyring.
    Stored(Key),
    /// A fresh key, and the text to store for it.
    Generated { key: Key, encoded: String },
}

/// Why no key could be had.
#[derive(Debug, Clone, PartialEq, Eq)]
pub enum KeyError {
    /// The keyring failed, with its message.
    Keyring(String),
    /// The stored text is not standard base64, with the decoder's message.
    Encoding(String),
    /// The stored bytes do not make a key.
    Key(CryptoError),
}

/// The key bytes that a stored text stands for: its base64 decoding, when
/// that is exactly 32 bytes.
pub open spec fn stored_key_bytes(encoded: Seq<char>) -> Option<Seq<u8>> {
    match base64_standard_decode(encode_utf8(encoded)) {
        Some(b) => if b.len() == 32 {
            Some(b)
        } else {
            None
        },
        None => None,
    }
}

/// `e` tells why a stored text stands for no key: it is not base64, or its
/// bytes are not 32.
pub open spec fn is_stored_key_fault(encoded: Seq<char>, e: KeyError) -> bool {
    match base64_standard_decode(encode_utf8(encoded)) {
        None => e is Encoding,
        Some(_) => e == KeyError::Key(CryptoError::InvalidKeyLength),
    }
}

impl KeyError {
    /// The message of the error, as displayed.
    pub fn to_string(&self) -> (r: String)
        ensures
            match self {
                KeyError::Keyring(m) => r@ == m@,
                KeyError::Encoding(m) => r@ == m@,
                KeyError::Key(e) => r@ == crate::crypto::crypto_error_message(*e),
            },
    {
        match self {
            KeyError::Keyring(m) => m.clone(),
            KeyError::Encoding(m) => m.clone(),
            KeyError::Key(e) => e.to_string(),
        }
    }
}

/// The key that a stored text stands for.
pub fn key_from_encoded(encoded: &str) -> (r: Result<Key, KeyError>)
    ensures
        match r {
            Ok(key) => stored_key_bytes(encoded@) == Some(key@),
            Err(e) => stored_key_bytes(encoded@) is None && is_stored_key_fault(encoded@, e),
        },
{
    let bytes = match base64_decode(encoded.as_bytes()) {
        Ok(b) => b,
        Err(err) => return Err(KeyError::Encoding(decode_error_text(&err))),
    };
    match key_from(bytes) {
        Ok(key) => Ok(key),
        Err(e) => Err(KeyError::Key(e)),
    }
}

/// The text stored in the keyring for `key`; reading it back gives `key`.
pub fn encode_key(key: &Key) -> (r: String)
    ensures
        r@ == base64_standard_encode(key@),
        stored_key_bytes(r@) == Some(key@),
{
    base64_encode(key.as_slice())
}

/// Decides the key in use from the keyring's answer: a stored text is
/// decoded, an empty keyring gets a fresh key together with the text to
/// store for it, and a keyring failure is reported.
pub fn resolve_key(lookup: KeyLookup) -> (r: Result<KeySource, KeyError>)
    ensures
        match lookup {
            KeyLookup::Found(s) => match r {
                Ok(KeySource::Stored(key)) => stored_key_bytes(s@) == Some(key@),
                Ok(KeySource::Generated { .. }) => false,
                Err(e) => stored_key_bytes(s@) is None && is_stored_key_fault(s@, e),
            },
            KeyLookup::NoEntry => match r {
                Ok(KeySource::Generated { key, encoded }) => {
                    &&& encoded@ == base64_standard_encode(key@)
                    &&& stored_key_bytes(encoded@) == Some(key@)
                },
                _ => false,
            },
            KeyLookup::Failed(m) => r == Err::<KeySource, KeyError>(KeyError::Keyring(m)),
        },
{
    match lookup {
        KeyLookup::Found(s) => match key_from_encoded(s.as_str()) {
            Ok(key) => Ok(KeySource::Stored(key)),
            Err(e) => Err(e),
        },
        KeyLookup::NoEntry => {
            let key = gen_key();
            let encoded = encode_key(&key);
            Ok(KeySource::Generated { key, encoded })
        },
        KeyLookup::Failed(m) => Err(KeyError::Keyring(m)),
    }
}

} // verus!
