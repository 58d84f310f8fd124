use base58::{FromBase58, ToBase58};
use ed25519_dalek::{Signature, Signer, SigningKey, Verifier};
use pacifica::canonical::to_sorted_json;
use pacifica::decimal::Decimal;
use pacifica::json::{Json, SerializationError};
use pacifica::order::{CreateLimitOrder, CreateMarketOrder, Side, Tif};
use pacifica::signature::{
    merge, Operation, RequestError, RequestHeaders, ShapeError, SignatureHeader, EXPIRY_WINDOW_MS,
};
use pacifica::{timestamp_from, timestamp_ms, Client, KeyError};

fn s(text: &str) -> String {
    text.to_string()
}

fn obj(entries: Vec<(&str, Json)>) -> Json {
    Json::Object(entries.into_iter().map(|(k, v)| (k.to_string(), v)).collect())
}

fn key() -> SigningKey {
    SigningKey::from_bytes(&[7u8; 32])
}

fn client() -> Client {
    let encoded = key().to_keypair_bytes().to_base58();
    Client::builder(encoded, s("acct")).unwrap().build()
}

fn lookup<'a>(body: &'a Json, key: &str) -> Option<&'a Json> {
    match body {
        Json::Object(entries) => entries.iter().find(|(k, _)| k == key).map(|(_, v)| v),
        _ => None,
    }
}

fn keys(body: &Json) -> Vec<String> {
    match body {
        Json::Object(entries) => entries.iter().map(|(k, _)| k.clone()).collect(),
        _ => vec![],
    }
}

fn market_order() -> CreateMarketOrder {
    CreateMarketOrder {
        symbol: s("BTC"),
        amount: Decimal::try_from_i128_with_scale(15, 1).unwrap(),
        side: Side::Bid,
        slippage_percent: Decimal::try_from_i128_with_scale(5, 1).unwrap(),
        reduce_only: false,
    }
}

#[test]
fn payload_wins_over_auth_field() {
    let auth = obj(vec![("account", Json::Str(s("a"))), ("timestamp", Json::UInt(1000))]);
    let payload = obj(vec![("timestamp", Json::UInt(2000))]);
    let body = merge(&auth, &payload).unwrap();
    assert_eq!(lookup(&body, "timestamp"), Some(&Json::UInt(2000)));
    assert_eq!(body, obj(vec![("account", Json::Str(s("a"))), ("timestamp", Json::UInt(2000))]));
}

#[test]
fn merge_appends_new_keys_in_payload_order() {
    let auth = obj(vec![("x", Json::UInt(1)), ("y", Json::UInt(2))]);
    let payload = obj(vec![("b", Json::UInt(3)), ("y", Json::UInt(4)), ("a", Json::UInt(5))]);
    let expected = obj(vec![
        ("x", Json::UInt(1)),
        ("y", Json::UInt(4)),
        ("b", Json::UInt(3)),
        ("a", Json::UInt(5)),
    ]);
    assert_eq!(merge(&auth, &payload), Ok(expected));
}

#[test]
fn merge_with_empty_payload_keeps_auth() {
    let auth = obj(vec![("x", Json::UInt(1))]);
    assert_eq!(merge(&auth, &obj(vec![])), Ok(obj(vec![("x", Json::UInt(1))])));
}

#[test]
fn merge_refuses_a_payload_that_is_no_object() {
    let auth = obj(vec![("x", Json::UInt(1))]);
    assert_eq!(merge(&auth, &Json::Array(vec![])), Err(ShapeError::Payload));
    assert_eq!(merge(&auth, &Json::Str(s("x"))), Err(ShapeError::Payload));
    assert_eq!(merge(&auth, &Json::Null), Err(ShapeError::Payload));
}

#[test]
fn merge_refuses_auth_that_is_no_object() {
    assert_eq!(merge(&Json::Array(vec![]), &obj(vec![])), Err(ShapeError::Auth));
    assert_eq!(merge(&Json::UInt(1), &Json::UInt(2)), Err(ShapeError::Auth));
}

#[test]
fn operation_names() {
    assert_eq!(Operation::CreateMarketOrder.to_string(), "create_market_order");
    assert_eq!(Operation::CreateLimitOrder.to_string(), "create_order");
    assert_eq!(Operation::ListApiKeys.to_string(), "list_api_keys");
    assert_eq!(Operation::CreateLimitOrder.as_str(), "create_order");
}

#[test]
fn header_fields_in_order() {
    let header = SignatureHeader {
        timestamp: 1_700_000_000_000,
        expiry_window: 5000,
        operation: Operation::ListApiKeys,
        data: obj(vec![]),
    };
    let expected = obj(vec![
        ("timestamp", Json::UInt(1_700_000_000_000)),
        ("expiry_window", Json::UInt(5000)),
        ("type", Json::Str(s("list_api_keys"))),
        ("data", obj(vec![])),
    ]);
    assert_eq!(header.to_json(), Ok(expected));
}

#[test]
fn header_canonical_text() {
    let header = SignatureHeader {
        timestamp: 1_700_000_000_000,
        expiry_window: 5000,
        operation: Operation::CreateMarketOrder,
        data: market_order().to_json(),
    };
    let text = to_sorted_json(&header.to_json().unwrap()).unwrap();
    let expected = "{\"data\":{\"amount\":\"1.5\",\"reduce_only\":false,\"side\":\"Bid\",\
                    \"slippage_percent\":\"0.5\",\"symbol\":\"BTC\"},\"expiry_window\":5000,\
                    \"timestamp\":1700000000000,\"type\":\"create_market_order\"}";
    assert_eq!(text, expected);
}

#[test]
fn header_timestamp_beyond_64_bits_is_refused() {
    let header = SignatureHeader {
        timestamp: u64::MAX as u128 + 1,
        expiry_window: 5000,
        operation: Operation::ListApiKeys,
        data: obj(vec![]),
    };
    assert_eq!(header.to_json(), Err(SerializationError::NumberOutOfRange));
}

#[test]
fn header_timestamp_at_the_limit_is_written() {
    let header = SignatureHeader {
        timestamp: u64::MAX as u128,
        expiry_window: 5000,
        operation: Operation::ListApiKeys,
        data: obj(vec![]),
    };
    assert_eq!(lookup(&header.to_json().unwrap(), "timestamp"), Some(&Json::UInt(u64::MAX)));
}

#[test]
fn auth_fields_in_order() {
    let headers = RequestHeaders {
        account: s("acct"),
        agent_wallet: Some(s("wallet")),
        signature: s("sig"),
        timestamp: 1000,
        expiry_window: 5000,
    };
    let expected = obj(vec![
        ("account", Json::Str(s("acct"))),
        ("agent_wallet", Json::Str(s("wallet"))),
        ("signature", Json::Str(s("sig"))),
        ("timestamp", Json::UInt(1000)),
        ("expiry_window", Json::UInt(5000)),
    ]);
    assert_eq!(headers.to_json(), Ok(expected));
}

#[test]
fn absent_wallet_is_written_as_null() {
    let headers = RequestHeaders {
        account: s("acct"),
        agent_wallet: None,
        signature: s("sig"),
        timestamp: 1000,
        expiry_window: 5000,
    };
    assert_eq!(lookup(&headers.to_json().unwrap(), "agent_wallet"), Some(&Json::Null));
}

#[test]
fn auth_timestamp_beyond_64_bits_is_refused() {
    let headers = RequestHeaders {
        account: s("acct"),
        agent_wallet: None,
        signature: s("sig"),
        timestamp: u128::MAX,
        expiry_window: 5000,
    };
    assert_eq!(headers.to_json(), Err(SerializationError::NumberOutOfRange));
}

#[test]
fn signing_twice_gives_the_same_signature() {
    let mut c = client();
    let data = market_order().to_json();
    let first = c.sign_at(Operation::CreateMarketOrder, &data, 1_700_000_000_000).unwrap();
    let second = c.sign_at(Operation::CreateMarketOrder, &data, 1_700_000_000_000).unwrap();
    assert_eq!(first.signature, second.signature);
    assert_eq!(first.agent_wallet, second.agent_wallet);
}

#[test]
fn signature_changes_with_the_timestamp() {
    let mut c = client();
    let data = obj(vec![]);
    let first = c.sign_at(Operation::ListApiKeys, &data, 1).unwrap();
    let second = c.sign_at(Operation::ListApiKeys, &data, 2).unwrap();
    assert_ne!(first.signature, second.signature);
}

#[test]
fn signature_ignores_the_order_of_payload_keys() {
    let mut c = client();
    let first = obj(vec![("b", Json::UInt(1)), ("a", Json::UInt(2))]);
    let second = obj(vec![("a", Json::UInt(2)), ("b", Json::UInt(1))]);
    let one = c.sign_at(Operation::CreateLimitOrder, &first, 9).unwrap();
    let two = c.sign_at(Operation::CreateLimitOrder, &second, 9).unwrap();
    assert_eq!(one.signature, two.signature);
}

#[test]
fn signature_verifies_over_the_canonical_header() {
    let mut c = client();
    let data = market_order().to_json();
    let headers = c.sign_at(Operation::CreateMarketOrder, &data, 1_700_000_000_000).unwrap();
    let text = "{\"data\":{\"amount\":\"1.5\",\"reduce_only\":false,\"side\":\"Bid\",\
                \"slippage_percent\":\"0.5\",\"symbol\":\"BTC\"},\"expiry_window\":5000,\
                \"timestamp\":1700000000000,\"type\":\"create_market_order\"}";
    let bytes = headers.signature.from_base58().unwrap();
    assert_eq!(bytes.len(), 64);
    let signature = Signature::from_slice(&bytes).unwrap();
    assert!(key().verifying_key().verify(text.as_bytes(), &signature).is_ok());
    assert_eq!(headers.signature, key().sign(text.as_bytes()).to_bytes().to_base58());
}

#[test]
fn wallet_is_the_public_key_in_base58() {
    let mut c = client();
    let headers = c.sign_at(Operation::ListApiKeys, &obj(vec![]), 1).unwrap();
    let expected = key().verifying_key().to_bytes().to_base58();
    assert_eq!(headers.agent_wallet, Some(expected));
    assert_eq!(headers.account, "acct");
    assert_eq!(headers.timestamp, 1);
    assert_eq!(headers.expiry_window, EXPIRY_WINDOW_MS);
    assert_eq!(EXPIRY_WINDOW_MS, 5000);
}

#[test]
fn signed_market_order_end_to_end() {
    let mut c = client();
    let order = market_order();
    let payload = order.to_json();
    let body = c.request_body_at(Operation::CreateMarketOrder, &payload, 1_700_000_000_000).unwrap();
    assert_eq!(
        keys(&body),
        vec![
            "account",
            "agent_wallet",
            "signature",
            "timestamp",
            "expiry_window",
            "symbol",
            "amount",
            "side",
            "slippage_percent",
            "reduce_only"
        ]
    );
    assert_eq!(lookup(&body, "symbol"), Some(&Json::Str(s("BTC"))));
    assert_eq!(lookup(&body, "amount"), Some(&Json::Str(s("1.5"))));
    assert_eq!(lookup(&body, "side"), Some(&Json::Str(s("Bid"))));
    assert_eq!(lookup(&body, "slippage_percent"), Some(&Json::Str(s("0.5"))));
    assert_eq!(lookup(&body, "reduce_only"), Some(&Json::Bool(false)));
    assert_eq!(lookup(&body, "timestamp"), Some(&Json::UInt(1_700_000_000_000)));
    assert_eq!(lookup(&body, "expiry_window"), Some(&Json::UInt(5000)));
    assert_eq!(lookup(&body, "account"), Some(&Json::Str(s("acct"))));
    let header = SignatureHeader {
        timestamp: 1_700_000_000_000,
        expiry_window: 5000,
        operation: Operation::CreateMarketOrder,
        data: payload,
    };
    let text = to_sorted_json(&header.to_json().unwrap()).unwrap();
    let encoded = match lookup(&body, "signature") {
        Some(Json::Str(text)) => text.clone(),
        _ => panic!("no signature"),
    };
    let signature = Signature::from_slice(&encoded.from_base58().unwrap()).unwrap();
    assert!(key().verifying_key().verify(text.as_bytes(), &signature).is_ok());
}

#[test]
fn request_now_carries_the_signed_timestamp() {
    let mut c = client();
    let before = timestamp_ms();
    let body = c.create_market_order(&market_order()).unwrap();
    let after = timestamp_ms();
    let timestamp = match lookup(&body, "timestamp") {
        Some(Json::UInt(t)) => *t,
        _ => panic!("no timestamp"),
    };
    assert!(before <= timestamp as u128 && timestamp as u128 <= after);
    let same = c
        .request_body_at(Operation::CreateMarketOrder, &market_order().to_json(), timestamp as u128)
        .unwrap();
    assert_eq!(body, same);
}

#[test]
fn limit_order_request() {
    let mut c = client();
    let order = CreateLimitOrder {
        symbol: s("ETH"),
        price: Decimal::try_from_i128_with_scale(250_025, 2).unwrap(),
        amount: Decimal::try_from_i128_with_scale(-3, 0).unwrap(),
        side: Side::Ask,
        tif: Tif::Ioc,
        reduce_only: true,
    };
    let expected = obj(vec![
        ("symbol", Json::Str(s("ETH"))),
        ("price", Json::Str(s("2500.25"))),
        ("amount", Json::Str(s("-3"))),
        ("side", Json::Str(s("Ask"))),
        ("tif", Json::Str(s("Ioc"))),
        ("reduce_only", Json::Bool(true)),
    ]);
    assert_eq!(order.to_json(), expected);
    let body = c.create_limit_order(&order).unwrap();
    assert_eq!(lookup(&body, "price"), Some(&Json::Str(s("2500.25"))));
    assert_eq!(keys(&body).len(), 11);
}

#[test]
fn list_api_keys_request_has_only_auth_fields() {
    let mut c = client();
    let body = c.list_api_keys().unwrap();
    assert_eq!(
        keys(&body),
        vec!["account", "agent_wallet", "signature", "timestamp", "expiry_window"]
    );
}

#[test]
fn payload_that_is_no_object_is_a_shape_error() {
    let mut c = client();
    let r = c.request_body_at(Operation::ListApiKeys, &Json::Array(vec![]), 1);
    assert_eq!(r, Err(RequestError::Shape(ShapeError::Payload)));
    let now = c.get_request_header(Operation::ListApiKeys, &Json::Null);
    assert_eq!(now, Err(RequestError::Shape(ShapeError::Payload)));
}

#[test]
fn payload_with_duplicate_key_is_a_serialization_error() {
    let mut c = client();
    let data = obj(vec![("a", Json::Null), ("a", Json::Null)]);
    let r = c.request_body_at(Operation::ListApiKeys, &data, 1);
    assert_eq!(r, Err(RequestError::Serialization(SerializationError::DuplicateKey)));
}

#[test]
fn timestamp_beyond_64_bits_is_a_serialization_error() {
    let mut c = client();
    let r = c.request_body_at(Operation::ListApiKeys, &obj(vec![]), u128::MAX);
    assert_eq!(r, Err(RequestError::Serialization(SerializationError::NumberOutOfRange)));
    assert!(c.sign_at(Operation::ListApiKeys, &obj(vec![]), u128::MAX).is_err());
}

#[test]
fn payload_field_named_like_auth_field_overwrites_it() {
    let mut c = client();
    let data = obj(vec![("account", Json::Str(s("other")))]);
    let body = c.request_body_at(Operation::ListApiKeys, &data, 1).unwrap();
    assert_eq!(lookup(&body, "account"), Some(&Json::Str(s("other"))));
    assert_eq!(keys(&body).len(), 5);
}

#[test]
fn builder_accepts_a_valid_key_pair() {
    let c = client();
    assert_eq!(c.account(), "acct");
}

#[test]
fn builder_refuses_text_that_is_not_base58() {
    assert_eq!(Client::builder(s("0OIl"), s("a")).err(), Some(KeyError::Encoding));
    assert_eq!(Client::builder(s("\u{e9}"), s("a")).err(), Some(KeyError::Encoding));
}

#[test]
fn builder_refuses_text_that_is_too_long() {
    let long = "1".repeat(133);
    assert_eq!(Client::builder(long, s("a")).err(), Some(KeyError::Encoding));
}

#[test]
fn builder_refuses_a_key_of_the_wrong_length() {
    let short = [1u8; 32].to_base58();
    assert_eq!(Client::builder(short, s("a")).err(), Some(KeyError::Length));
    assert_eq!(Client::builder(s(""), s("a")).err(), Some(KeyError::Length));
}

#[test]
fn builder_refuses_a_public_half_that_does_not_belong() {
    let mut pair = key().to_keypair_bytes();
    let other = SigningKey::from_bytes(&[8u8; 32]).verifying_key().to_bytes();
    pair[32..].copy_from_slice(&other);
    assert_eq!(Client::builder(pair.to_base58(), s("a")).err(), Some(KeyError::Mismatch));
    let mut garbage = key().to_keypair_bytes();
    garbage[63] ^= 0x55;
    assert_eq!(Client::builder(garbage.to_base58(), s("a")).err(), Some(KeyError::Mismatch));
}

#[test]
fn timestamp_is_in_milliseconds() {
    let now = timestamp_ms();
    assert!(now > 1_600_000_000_000);
    assert!(now < 100_000_000_000_000);
}

#[test]
fn sign_now_gives_fields_for_the_current_time() {
    let mut c = client();
    let data = obj(vec![("k", Json::Null)]);
    let before = timestamp_ms();
    let headers = c.sign(Operation::ListApiKeys, &data).unwrap();
    let after = timestamp_ms();
    assert!(before <= headers.timestamp && headers.timestamp <= after);
    assert_eq!(headers.expiry_window, 5000);
    let again = c.sign_at(Operation::ListApiKeys, &data, headers.timestamp).unwrap();
    assert_eq!(headers.signature, again.signature);
}

#[test]
fn timestamp_for_each_reading_of_the_clock() {
    assert_eq!(timestamp_from(Some(1_700_000_000_000)), 1_700_000_000_000);
    assert_eq!(timestamp_from(Some(0)), 0);
    assert_eq!(timestamp_from(Some(u128::MAX)), u128::MAX);
    assert_eq!(timestamp_from(None), 0);
}
