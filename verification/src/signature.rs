//! Signing a request and assembling its body.

use crate::canonical::{sorted_json, to_sorted_json};
use crate::crypto::{
    base58_encode, base58_text, ed25519_public_key, ed25519_sign, ed25519_signature,
    verifying_key_bytes,
};
use crate::json::{
    entries_view, find_key, key_index, lemma_object_view, Json, JsonView, SerializationError,
};
use crate::{timestamp_ms, Client, ClientView};
use vstd::prelude::*;

verus! {

/// For how many milliseconds from its timestamp a signed request is valid.
pub const EXPIRY_WINDOW_MS: u64 = 5000;

/// The operations that change something on the exchange and so are signed.
#[derive(Debug, Clone, Copy, PartialEq, Eq, Structural)]
pub enum Operation {
    CreateMarketOrder,
    CreateLimitOrder,
    ListApiKeys,
}

impl Operation {
    /// The name by which the signed header tells the operations apart. The
    /// limit order goes by the plain name `create_order`.
    pub open spec fn wire(self) -> Seq<char> {
        match self {
            Operation::CreateMarketOrder => "create_market_order"@,
            Operation::CreateLimitOrder => "create_order"@,
            Operation::ListApiKeys => "list_api_keys"@,
        }
    }

    /// The operation's name in the signed header.
    pub fn as_str(&self) -> (r: &'static str)
        ensures
            r@ == self.wire(),
    {
        match self {
            Operation::CreateMarketOrder => "create_market_order",
            Operation::CreateLimitOrder => "create_order",
            Operation::ListApiKeys => "list_api_keys",
        }
    }

    /// The operation's name in the signed header, as an owned string.
    pub fn to_string(&self) -> (r: String)
        ensures
            r@ == self.wire(),
    {
        self.as_str().to_string()
    }
}

/// No two operations share a name.
pub proof fn lemma_wire_names_differ(a: Operation, b: Operation)
    requires
        a.wire() == b.wire(),
    ensures
        a == b,
{
    reveal_strlit("create_market_order");
    reveal_strlit("create_order");
    reveal_strlit("list_api_keys");
    assert("create_market_order"@.len() == 19);
    assert("create_order"@.len() == 12);
    assert("list_api_keys"@.len() == 13);
}

/// The record that is signed: when, for how long, what, and with which data.
#[derive(Debug)]
pub struct SignatureHeader {
    pub timestamp: u128,
    pub expiry_window: u64,
    pub operation: Operation,
    pub data: Json,
}

/// The signed record as a structured value, its entries in the order of the
/// record's fields.
pub open spec fn header_view(
    timestamp: u128,
    expiry_window: u64,
    operation: Operation,
    data: JsonView,
) -> JsonView {
    JsonView::Object(
        seq![
            ("timestamp"@, JsonView::Number(timestamp as int)),
            ("expiry_window"@, JsonView::Number(expiry_window as int)),
            ("type"@, JsonView::Str(operation.wire())),
            ("data"@, data),
        ],
    )
}

impl SignatureHeader {
    /// The record as a structured value. A timestamp that does not fit in 64
    /// bits cannot be written.
    pub open spec fn json_view(&self) -> Result<JsonView, SerializationError> {
        if self.timestamp > u64::MAX {
            Err(SerializationError::NumberOutOfRange)
        } else {
            Ok(header_view(self.timestamp, self.expiry_window, self.operation, self.data@))
        }
    }

    /// The record as a structured value.
    pub fn to_json(&self) -> (r: Result<Json, SerializationError>)
        ensures
            r matches Ok(j) ==> self.json_view() == Ok::<JsonView, SerializationError>(j@),
            r matches Err(e) ==> self.json_view() == Err::<JsonView, SerializationError>(e),
    {
        if self.timestamp > u64::MAX as u128 {
            return Err(SerializationError::NumberOutOfRange);
        }
        let mut entries: Vec<(String, Json)> = Vec::new();
        entries.push(("timestamp".to_string(), Json::UInt(self.timestamp as u64)));
        entries.push(("expiry_window".to_string(), Json::UInt(self.expiry_window)));
        entries.push(("type".to_string(), Json::Str(self.operation.to_string())));
        entries.push(("data".to_string(), self.data.clone()));
        proof {
            lemma_object_view(entries);
            assert(entries_view(entries@) =~= header_view(
                self.timestamp,
                self.expiry_window,
                self.operation,
                self.data@,
            )->Object_0);
        }
        Ok(Json::Object(entries))
    }
}

/// The fields that authenticate a request.
#[derive(Debug)]
pub struct RequestHeaders {
    pub account: String,
    pub agent_wallet: Option<String>,
    pub signature: String,
    pub timestamp: u128,
    pub expiry_window: u64,
}

/// What the authentication fields hold.
pub struct RequestHeadersView {
    pub account: Seq<char>,
    pub agent_wallet: Option<Seq<char>>,
    pub signature: Seq<char>,
    pub timestamp: u128,
    pub expiry_window: u64,
}

impl View for RequestHeaders {
    type V = RequestHeadersView;

    open spec fn view(&self) -> RequestHeadersView {
        RequestHeadersView {
            account: self.account@,
            agent_wallet: match self.agent_wallet {
                Some(w) => Some(w@),
                None => None,
            },
            signature: self.signature@,
            timestamp: self.timestamp,
            expiry_window: self.expiry_window,
        }
    }
}

/// The authentication fields as a structured value, its entries in the order
/// of the fields. A wallet that is absent is written as null.
pub open spec fn auth_view(h: RequestHeadersView) -> JsonView {
    JsonView::Object(
        seq![
            ("account"@, JsonView::Str(h.account)),
            (
                "agent_wallet"@,
                match h.agent_wallet {
                    Some(w) => JsonView::Str(w),
                    None => JsonView::Null,
                },
            ),
            ("signature"@, JsonView::Str(h.signature)),
            ("timestamp"@, JsonView::Number(h.timestamp as int)),
            ("expiry_window"@, JsonView::Number(h.expiry_window as int)),
        ],
    )
}

impl RequestHeadersView {
    /// The fields as a structured value. A timestamp that does not fit in 64
    /// bits cannot be written.
    pub open spec fn json_view(self) -> Result<JsonView, SerializationError> {
        if self.timestamp > u64::MAX {
            Err(SerializationError::NumberOutOfRange)
        } else {
            Ok(auth_view(self))
        }
    }
}

impl RequestHeaders {
    /// The fields as a structured value.
    pub fn to_json(&self) -> (r: Result<Json, SerializationError>)
        ensures
            r matches Ok(j) ==> self@.json_view() == Ok::<JsonView, SerializationError>(j@),
            r matches Err(e) ==> self@.json_view() == Err::<JsonView, SerializationError>(e),
    {
        if self.timestamp > u64::MAX as u128 {
            return Err(SerializationError::NumberOutOfRange);
        }
        let wallet = match &self.agent_wallet {
            Some(w) => Json::Str(w.clone()),
            None => Json::Null,
        };
        let mut entries: Vec<(String, Json)> = Vec::new();
        entries.push(("account".to_string(), Json::Str(self.account.clone())));
        entries.push(("agent_wallet".to_string(), wallet));
        entries.push(("signature".to_string(), Json::Str(self.signature.clone())));
        entries.push(("timestamp".to_string(), Json::UInt(self.timestamp as u64)));
        entries.push(("expiry_window".to_string(), Json::UInt(self.expiry_window)));
        proof {
            lemma_object_view(entries);
            assert(entries_view(entries@) =~= auth_view(self@)->Object_0);
        }
        Ok(Json::Object(entries))
    }
}

/// Which of the two values to merge is no object.
#[derive(Debug, Clone, Copy, PartialEq, Eq, Structural)]
pub enum ShapeError {
    /// The authentication fields.
    Auth,
    /// The payload.
    Payload,
}

/// The entries with `value` under `key`: in the place of the entry that had
/// the key, or at the end where none had it.
pub open spec fn put(
    entries: Seq<(Seq<char>, JsonView)>,
    key: Seq<char>,
    value: JsonView,
) -> Seq<(Seq<char>, JsonView)> {
    if key_index(entries, key) < entries.len() {
        entries.update(key_index(entries, key), (key, value))
    } else {
        entries.push((key, value))
    }
}

/// The entries of `base` with each entry of `over` put on top, in the order
/// of `over`.
pub open spec fn overlay(
    base: Seq<(Seq<char>, JsonView)>,
    over: Seq<(Seq<char>, JsonView)>,
) -> Seq<(Seq<char>, JsonView)>
    decreases over.len(),
{
    if over.len() == 0 {
        base
    } else {
        put(overlay(base, over.drop_last()), over.last().0, over.last().1)
    }
}

/// The request body made of the authentication fields and the payload: the
/// fields overlaid with the payload's entries. Both must be objects.
pub open spec fn merged(auth: JsonView, payload: JsonView) -> Result<JsonView, ShapeError> {
    if !(auth is Object) {
        Err(ShapeError::Auth)
    } else if !(payload is Object) {
        Err(ShapeError::Payload)
    } else {
        Ok(JsonView::Object(overlay(auth->Object_0, payload->Object_0)))
    }
}

/// Assembles the request body: starts from the authentication fields and
/// overlays every entry of the payload, so that of two entries with one key
/// the payload's stays.
pub fn merge(a: &Json, b: &Json) -> (r: Result<Json, ShapeError>)
    ensures
        r matches Ok(m) ==> merged(a@, b@) == Ok::<JsonView, ShapeError>(m@),
        r matches Err(e) ==> merged(a@, b@) == Err::<JsonView, ShapeError>(e),
{
    let mut out: Vec<(String, Json)> = match a.clone() {
        Json::Object(entries) => entries,
        _ => {
            return Err(ShapeError::Auth);
        },
    };
    let over = match b {
        Json::Object(entries) => entries,
        _ => {
            return Err(ShapeError::Payload);
        },
    };
    let ghost base = entries_view(out@);
    let ghost top = entries_view(over@);
    proof {
        lemma_object_view(out);
        lemma_object_view(*over);
        assert(top.take(0) =~= Seq::empty());
    }
    let mut i: usize = 0;
    while i < over.len()
        invariant
            i <= over.len(),
            top == entries_view(over@),
            entries_view(out@) == overlay(base, top.take(i as int)),
        decreases over.len() - i,
    {
        let key = over[i].0.clone();
        let value = over[i].1.clone();
        let at = find_key(&out, &key);
        proof {
            let next = top.take(i + 1);
            assert(next.drop_last() =~= top.take(i as int));
            assert(next.last() == (key@, value@));
        }
        let ghost before = entries_view(out@);
        if at < out.len() {
            out.set(at, (key, value));
            proof {
                assert(entries_view(out@) =~= before.update(at as int, (key@, value@)));
            }
        } else {
            out.push((key, value));
            proof {
                assert(entries_view(out@) =~= before.push((key@, value@)));
            }
        }
        i += 1;
    }
    proof {
        assert(top.take(i as int) =~= top);
        lemma_object_view(out);
    }
    Ok(Json::Object(out))
}

/// Why a request could not be signed and assembled.
#[derive(Debug, Clone, Copy, PartialEq, Eq, Structural)]
pub enum RequestError {
    /// The header or the authentication fields could not be written.
    Serialization(SerializationError),
    /// The payload is no object.
    Shape(ShapeError),
}

/// The text that is signed for a request: the canonical text of its header.
pub open spec fn signing_text(operation: Operation, data: JsonView, timestamp: u128) -> Result<
    Seq<char>,
    SerializationError,
> {
    if timestamp > u64::MAX {
        Err(SerializationError::NumberOutOfRange)
    } else {
        sorted_json(header_view(timestamp, EXPIRY_WINDOW_MS, operation, data))
    }
}

/// The authentication fields of a request signed at `timestamp`: the account,
/// the public key in base58, the signature over the signing text in base58,
/// and the timestamp and expiry window that the signing text holds.
pub open spec fn signed_headers(
    client: ClientView,
    operation: Operation,
    data: JsonView,
    timestamp: u128,
) -> Result<RequestHeadersView, SerializationError> {
    match signing_text(operation, data, timestamp) {
        Ok(text) => Ok(
            RequestHeadersView {
                account: client.account,
                agent_wallet: Some(base58_text(ed25519_public_key(client.secret_key))),
                signature: base58_text(
                    ed25519_signature(client.secret_key, vstd::utf8::encode_utf8(text)),
                ),
                timestamp,
                expiry_window: EXPIRY_WINDOW_MS,
            },
        ),
        Err(e) => Err(e),
    }
}

/// The body of a request signed at `timestamp`: the authentication fields
/// overlaid with the payload.
pub open spec fn request_body(
    client: ClientView,
    operation: Operation,
    data: JsonView,
    timestamp: u128,
) -> Result<JsonView, RequestError> {
    match signed_headers(client, operation, data, timestamp) {
        Ok(h) => match merged(auth_view(h), data) {
            Ok(body) => Ok(body),
            Err(e) => Err(RequestError::Shape(e)),
        },
        Err(e) => Err(RequestError::Serialization(e)),
    }
}

impl Client {
    /// Signs a request as of `timestamp`: writes the header in canonical
    /// text, signs the text's bytes and returns the authentication fields
    /// with that same timestamp.
    pub fn sign_at(&mut self, operation: Operation, data: &Json, timestamp: u128) -> (r: Result<
        RequestHeaders,
        SerializationError,
    >)
        ensures
            final(self)@ == old(self)@,
            r matches Ok(h) ==> signed_headers(old(self)@, operation, data@, timestamp) == Ok::<
                RequestHeadersView,
                SerializationError,
            >(h@),
            r matches Err(e) ==> signed_headers(old(self)@, operation, data@, timestamp) == Err::<
                RequestHeadersView,
                SerializationError,
            >(e),
    {
        let header = SignatureHeader {
            timestamp,
            expiry_window: EXPIRY_WINDOW_MS,
            operation,
            data: data.clone(),
        };
        let value = match header.to_json() {
            Ok(value) => value,
            Err(e) => {
                return Err(e);
            },
        };
        let text = match to_sorted_json(&value) {
            Ok(text) => text,
            Err(e) => {
                return Err(e);
            },
        };
        let signed = ed25519_sign(self.secret_key(), text.as_str().as_bytes());
        let signature = base58_encode(&signed);
        let public = verifying_key_bytes(self.secret_key());
        let wallet = base58_encode(&public);
        Ok(
            RequestHeaders {
                account: self.account().to_string(),
                agent_wallet: Some(wallet),
                signature,
                timestamp,
                expiry_window: EXPIRY_WINDOW_MS,
            },
        )
    }

    /// Signs a request as of now: the authentication fields for the operation
    /// and its payload, with the timestamp that went into the signed header.
    pub fn sign(&mut self, operation: Operation, data: &Json) -> (r: Result<
        RequestHeaders,
        SerializationError,
    >)
        ensures
            final(self)@ == old(self)@,
            exists|timestamp: u128|
                match r {
                    Ok(h) => #[trigger] signed_headers(old(self)@, operation, data@, timestamp)
                        == Ok::<RequestHeadersView, SerializationError>(h@),
                    Err(e) => signed_headers(old(self)@, operation, data@, timestamp) == Err::<
                        RequestHeadersView,
                        SerializationError,
                    >(e),
                },
    {
        let timestamp = timestamp_ms();
        let ghost before = self@;
        let r = self.sign_at(operation, data, timestamp);
        proof {
            let found = signed_headers(before, operation, data@, timestamp);
            assert(match r {
                Ok(h) => found == Ok::<RequestHeadersView, SerializationError>(h@),
                Err(e) => found == Err::<RequestHeadersView, SerializationError>(e),
            });
        }
        r
    }

    /// Signs a request as of `timestamp` and assembles its body.
    pub fn request_body_at(&mut self, operation: Operation, data: &Json, timestamp: u128) -> (r:
        Result<Json, RequestError>)
        ensures
            final(self)@ == old(self)@,
            r matches Ok(body) ==> request_body(old(self)@, operation, data@, timestamp) == Ok::<
                JsonView,
                RequestError,
            >(body@),
            r matches Err(e) ==> request_body(old(self)@, operation, data@, timestamp) == Err::<
                JsonView,
                RequestError,
            >(e),
    {
        let headers = match self.sign_at(operation, data, timestamp) {
            Ok(headers) => headers,
            Err(e) => {
                return Err(RequestError::Serialization(e));
            },
        };
        let auth = match headers.to_json() {
            Ok(auth) => auth,
            Err(e) => {
                return Err(RequestError::Serialization(e));
            },
        };
        match merge(&auth, data) {
            Ok(body) => Ok(body),
            Err(e) => Err(RequestError::Shape(e)),
        }
    }

    /// Signs a request as of now and assembles its body: the authentication
    /// fields overlaid with the payload's entries. The timestamp in the body
    /// is the one in the signed header.
    pub fn get_request_header(&mut self, operation: Operation, data: &Json) -> (r: Result<
        Json,
        RequestError,
    >)
        ensures
            final(self)@ == old(self)@,
            exists|timestamp: u128|
                match r {
                    Ok(body) => #[trigger] request_body(old(self)@, operation, data@, timestamp)
                        == Ok::<JsonView, RequestError>(body@),
                    Err(e) => request_body(old(self)@, operation, data@, timestamp) == Err::<
                        JsonView,
                        RequestError,
                    >(e),
                },
    {
        let timestamp = timestamp_ms();
        let ghost before = self@;
        let r = self.request_body_at(operation, data, timestamp);
        proof {
            let found = request_body(before, operation, data@, timestamp);
            assert(match r {
                Ok(body) => found == Ok::<JsonView, RequestError>(body@),
                Err(e) => found == Err::<JsonView, RequestError>(e),
            });
        }
        r
    }
}

} // verus!
