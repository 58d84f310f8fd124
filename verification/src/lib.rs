//! Request signing and stream-session logic for the Pacifica exchange API.
//!
//! The crate turns a request payload into a canonical byte string, signs it and
//! assembles the signed request body, and it decides, step by step, what a
//! streaming session does with each connection event. It opens no socket and
//! sends nothing: a caller posts the bodies and runs the session.
//!
//! - [`json`]: structured values and the mathematical values they stand for.
//! - [`canonical`]: the canonical form of a value and its canonical text.
//! - [`ordering`], [`reorder`]: why values that differ only in the order of
//!   their keys share one canonical form.
//! - [`text`]: JSON text, written by `serde_json`.
//! - [`crypto`]: Ed25519 and base58, done by `ed25519_dalek` and `base58`.
//! - [`signature`]: the operations, the signed header, the authentication
//!   fields and the request body; [`request_laws`]: what holds of every body.
//! - [`ws`]: control messages and the state machine of a streaming session;
//!   [`stream_laws`]: what holds of every run of a session.
//! - [`order`], [`api`], [`kline`], [`orderbook`], [`decimal`]: the payloads
//!   and records of the single endpoints.

pub mod api;
pub mod canonical;
pub mod crypto;
pub mod decimal;
pub mod json;
pub mod kline;
pub mod order;
pub mod orderbook;
pub mod ordering;
pub mod reorder;
pub mod request_laws;
pub mod signature;
pub mod stream_laws;
pub mod text;
pub mod ws;

use crate::crypto::{base58_bytes, base58_decode, ed25519_public_key, keypair_is_valid};
use vstd::prelude::*;

verus! {

/// The address under which the REST endpoints stand.
pub const API_BASE: &'static str = "https://api.pacifica.fi/api/v1";

/// The envelope in which the exchange answers a read-only request.
#[derive(Debug)]
pub struct ApiResponse<T> {
    pub success: bool,
    pub data: T,
    pub error: Option<String>,
    pub code: Option<String>,
}

/// `std::time::SystemTime::now`, as milliseconds since the Unix epoch; `None`
/// where the clock stands before the epoch. Nothing is promised of the
/// number: it is the time.
#[verifier::external_body]
fn clock_ms() -> (r: Option<u128>) {
    std::time::SystemTime::now().duration_since(std::time::UNIX_EPOCH).ok().map(|d| d.as_millis())
}

/// The wall-clock time in milliseconds since the Unix epoch; 0 where the
/// clock stands before the epoch.
pub fn timestamp_ms() -> u128 {
    timestamp_from(clock_ms())
}

/// The timestamp that a reading of the clock stands for: the milliseconds
/// themselves, and 0 for a clock that stands before the epoch.
pub open spec fn timestamp_of(reading: Option<u128>) -> u128 {
    match reading {
        Some(ms) => ms,
        None => 0,
    }
}

/// The timestamp for a reading of the clock, where `None` is the reading of a
/// clock that stands before the Unix epoch.
pub fn timestamp_from(reading: Option<u128>) -> (r: u128)
    ensures
        r == timestamp_of(reading),
{
    match reading {
        Some(ms) => ms,
        None => 0,
    }
}

/// Why a secret is no signing key.
#[derive(Debug, Clone, Copy, PartialEq, Eq, Structural)]
pub enum KeyError {
    /// The text is not base58, or it is too long to be a key pair.
    Encoding,
    /// The text does not stand for 64 bytes.
    Length,
    /// The public half does not belong to the secret half.
    Mismatch,
}

/// The secret key that an encoded key pair holds, or why it holds none: the
/// text must be base58 for 64 bytes of which the last 32 are the public key of
/// the first 32.
pub open spec fn decoded_key(api_key: Seq<char>) -> Result<Seq<u8>, KeyError> {
    if vstd::utf8::encode_utf8(api_key).len() > crypto::BASE58_MAX_TEXT {
        Err(KeyError::Encoding)
    } else {
        match base58_bytes(api_key) {
            None => Err(KeyError::Encoding),
            Some(bytes) => if bytes.len() != crypto::KEYPAIR_LENGTH {
                Err(KeyError::Length)
            } else if ed25519_public_key(bytes.subrange(0, 32)) != bytes.subrange(32, 64) {
                Err(KeyError::Mismatch)
            } else {
                Ok(bytes.subrange(0, 32))
            },
        }
    }
}

/// What a client is made of: the account it acts for and its secret key.
pub struct ClientView {
    pub account: Seq<char>,
    pub secret_key: Seq<u8>,
}

/// A client of the exchange: an account and the key that signs for it.
pub struct Client {
    account: String,
    secret_key: Vec<u8>,
}

/// A client in the making.
pub struct ClientBuilder {
    account: String,
    secret_key: Vec<u8>,
}

impl View for Client {
    type V = ClientView;

    closed spec fn view(&self) -> ClientView {
        ClientView { account: self.account@, secret_key: self.secret_key@ }
    }
}

impl View for ClientBuilder {
    type V = ClientView;

    closed spec fn view(&self) -> ClientView {
        ClientView { account: self.account@, secret_key: self.secret_key@ }
    }
}

impl Client {
    #[verifier::type_invariant]
    spec fn well_formed(self) -> bool {
        self.secret_key@.len() == crypto::SECRET_KEY_LENGTH
    }

    /// Starts a client from an encoded key pair and an account. A secret that
    /// is no valid key pair gives no client at all.
    pub fn builder(api_key: String, account: String) -> (r: Result<ClientBuilder, KeyError>)
        ensures
            r matches Ok(b) ==> decoded_key(api_key@) == Ok::<Seq<u8>, KeyError>(b@.secret_key)
                && b@.account == account@,
            r matches Err(e) ==> decoded_key(api_key@) == Err::<Seq<u8>, KeyError>(e),
    {
        if api_key.as_str().as_bytes().len() > crypto::BASE58_MAX_TEXT {
            return Err(KeyError::Encoding);
        }
        let bytes = match base58_decode(api_key.as_str()) {
            Some(bytes) => bytes,
            None => {
                return Err(KeyError::Encoding);
            },
        };
        if bytes.len() != crypto::KEYPAIR_LENGTH {
            return Err(KeyError::Length);
        }
        if !keypair_is_valid(&bytes) {
            return Err(KeyError::Mismatch);
        }
        let mut secret_key: Vec<u8> = Vec::with_capacity(crypto::SECRET_KEY_LENGTH);
        let mut i: usize = 0;
        while i < crypto::SECRET_KEY_LENGTH
            invariant
                i <= crypto::SECRET_KEY_LENGTH,
                bytes@.len() == crypto::KEYPAIR_LENGTH,
                secret_key@ == bytes@.subrange(0, i as int),
            decreases crypto::SECRET_KEY_LENGTH - i,
        {
            secret_key.push(bytes[i]);
            proof {
                assert(secret_key@ =~= bytes@.subrange(0, i + 1));
            }
            i += 1;
        }
        Ok(ClientBuilder { account, secret_key })
    }

    /// The account that the client acts for.
    pub fn account(&self) -> (r: &str)
        ensures
            r@ == self@.account,
    {
        self.account.as_str()
    }

    /// The secret key, 32 bytes.
    pub(crate) fn secret_key(&self) -> (r: &Vec<u8>)
        ensures
            r@ == self@.secret_key,
            r@.len() == crypto::SECRET_KEY_LENGTH,
    {
        proof {
            use_type_invariant(self);
        }
        &self.secret_key
    }
}

impl ClientBuilder {
    #[verifier::type_invariant]
    spec fn well_formed(self) -> bool {
        self.secret_key@.len() == crypto::SECRET_KEY_LENGTH
    }

    /// The client.
    pub fn build(self) -> (r: Client)
        ensures
            r@ == self@,
    {
        proof {
            use_type_invariant(&self);
        }
        Client { account: self.account, secret_key: self.secret_key }
    }
}

} // verus!
