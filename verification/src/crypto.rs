//! Ed25519 signatures and base58 text, by way of `ed25519_dalek` and `base58`.

use vstd::prelude::*;

verus! {

/// The base58 text of a byte string, as `base58::ToBase58::to_base58` writes it.
pub uninterp spec fn base58_text(bytes: Seq<u8>) -> Seq<char>;

/// The bytes that a base58 text stands for, as
/// `base58::FromBase58::from_base58` reads it; `None` where it gives an error.
pub uninterp spec fn base58_bytes(text: Seq<char>) -> Option<Seq<u8>>;

/// The public half of the Ed25519 key with this secret: the bytes of
/// `ed25519_dalek::SigningKey::verifying_key` for the key made from the secret.
pub uninterp spec fn ed25519_public_key(secret: Seq<u8>) -> Seq<u8>;

/// The Ed25519 signature of the message under the key with this secret, as
/// `ed25519_dalek::SigningKey` signs.
pub uninterp spec fn ed25519_signature(secret: Seq<u8>, message: Seq<u8>) -> Seq<u8>;

/// The longest byte string that is written as base58.
pub const BASE58_MAX_BYTES: usize = 128;

/// The longest text, in bytes, that is read as base58.
pub const BASE58_MAX_TEXT: usize = 132;

/// The length of a secret key.
pub const SECRET_KEY_LENGTH: usize = 32;

/// The length of a public key.
pub const PUBLIC_KEY_LENGTH: usize = 32;

/// The length of a key pair: the secret key, then the public key.
pub const KEYPAIR_LENGTH: usize = 64;

/// The length of a signature.
pub const SIGNATURE_LENGTH: usize = 64;

/// `base58::ToBase58::to_base58` on a byte slice. The crate says of itself
/// that it works on up to 128 bytes.
#[verifier::external_body]
pub(crate) fn base58_encode(bytes: &Vec<u8>) -> (r: String)
    requires
        bytes@.len() <= BASE58_MAX_BYTES,
    ensures
        r@ == base58_text(bytes@),
{
    base58::ToBase58::to_base58(bytes.as_slice())
}

/// `base58::FromBase58::from_base58` on a string. The call works in a buffer
/// of 132 bytes and goes out of bounds on some longer texts, so only texts of
/// at most 132 bytes are handed to it.
#[verifier::external_body]
pub(crate) fn base58_decode(text: &str) -> (r: Option<Vec<u8>>)
    requires
        vstd::utf8::encode_utf8(text@).len() <= BASE58_MAX_TEXT,
    ensures
        r matches Some(bytes) ==> base58_bytes(text@) == Some(bytes@),
        r is None ==> base58_bytes(text@) is None,
{
    base58::FromBase58::from_base58(text).ok()
}

/// `ed25519_dalek::SigningKey::from_keypair_bytes`, asked only whether it
/// accepts the 64 bytes. It does when the last 32 bytes are the public key
/// that belongs to the secret key in the first 32.
#[verifier::external_body]
pub(crate) fn keypair_is_valid(bytes: &Vec<u8>) -> (r: bool)
    requires
        bytes@.len() == KEYPAIR_LENGTH,
    ensures
        r == (ed25519_public_key(bytes@.subrange(0, 32)) == bytes@.subrange(32, 64)),
{
    let pair: [u8; 64] = bytes.as_slice().try_into().unwrap();
    ed25519_dalek::SigningKey::from_keypair_bytes(&pair).is_ok()
}

/// `ed25519_dalek::SigningKey::verifying_key` on the key made from the
/// secret: the 32 bytes of the public key.
#[verifier::external_body]
pub(crate) fn verifying_key_bytes(secret: &Vec<u8>) -> (r: Vec<u8>)
    requires
        secret@.len() == SECRET_KEY_LENGTH,
    ensures
        r@ == ed25519_public_key(secret@),
        r@.len() == PUBLIC_KEY_LENGTH,
{
    let key: [u8; 32] = secret.as_slice().try_into().unwrap();
    ed25519_dalek::SigningKey::from_bytes(&key).verifying_key().to_bytes().to_vec()
}

/// `sign` of `ed25519_dalek::SigningKey`, on the key made from the secret: the
/// 64 bytes of the signature. Signing draws on nothing but the key and the
/// message.
#[verifier::external_body]
pub(crate) fn ed25519_sign(secret: &Vec<u8>, message: &[u8]) -> (r: Vec<u8>)
    requires
        secret@.len() == SECRET_KEY_LENGTH,
    ensures
        r@ == ed25519_signature(secret@, message@),
        r@.len() == SIGNATURE_LENGTH,
{
    let key: [u8; 32] = secret.as_slice().try_into().unwrap();
    let mut signing_key = ed25519_dalek::SigningKey::from_bytes(&key);
    ed25519_dalek::ed25519::signature::SignerMut::sign(&mut signing_key, message).to_bytes().to_vec()
}

} // verus!
