//! What holds of every signed request.

use crate::canonical::sorted_json;
use crate::json::{
    distinct_keys, has_key, key_index, lemma_key_index, lemma_key_index_unique, lookup, JsonView,
};
use crate::signature::{
    auth_view, header_view, merged, overlay, put, request_body, signed_headers, signing_text,
    Operation, RequestHeadersView, EXPIRY_WINDOW_MS,
};
use crate::ClientView;
use vstd::prelude::*;

verus! {

/// After `put`, the key holds the new value and every other key holds what it
/// held; the keys are those of before and the new one, and each is still there
/// only once.
pub proof fn lemma_put(
    entries: Seq<(Seq<char>, JsonView)>,
    key: Seq<char>,
    value: JsonView,
    k: Seq<char>,
)
    ensures
        lookup(put(entries, key, value), k) == if k == key {
            Some(value)
        } else {
            lookup(entries, k)
        },
        has_key(put(entries, key, value), k) <==> k == key || has_key(entries, k),
        distinct_keys(entries) ==> distinct_keys(put(entries, key, value)),
{
    let out = put(entries, key, value);
    let at = key_index(entries, key);
    let found = key_index(entries, k);
    lemma_key_index(entries, key);
    lemma_key_index(entries, k);
    if at < entries.len() {
        assert forall|i: int| 0 <= i < out.len() implies (#[trigger] out[i]).0 == entries[i].0 by {}
        assert forall|i: int| 0 <= i < found implies (#[trigger] out[i]).0 != k by {
            assert(entries[i].0 != k);
        }
        lemma_key_index_unique(out, k, found);
        if distinct_keys(entries) {
            assert forall|i: int, j: int| 0 <= i < j < out.len() implies out[i].0 != out[j].0 by {
                assert(entries[i].0 != entries[j].0);
            }
        }
    } else {
        let target = if found < entries.len() {
            found
        } else if k == key {
            entries.len() as int
        } else {
            (entries.len() + 1) as int
        };
        assert forall|i: int| 0 <= i < target implies (#[trigger] out[i]).0 != k by {
            if i < entries.len() {
                assert(out[i] == entries[i]);
                assert(entries[i].0 != k);
            }
        }
        lemma_key_index_unique(out, k, target);
        if distinct_keys(entries) {
            assert forall|i: int, j: int| 0 <= i < j < out.len() implies out[i].0 != out[j].0 by {
                if j < entries.len() {
                    assert(entries[i].0 != entries[j].0);
                } else {
                    assert(entries[i].0 != key);
                }
            }
        }
    }
    lemma_key_index(out, k);
}

/// The keys of an overlay are those of the base and those put on top, and
/// nothing else.
pub proof fn lemma_overlay_keys(
    base: Seq<(Seq<char>, JsonView)>,
    over: Seq<(Seq<char>, JsonView)>,
    k: Seq<char>,
)
    ensures
        has_key(overlay(base, over), k) <==> has_key(base, k) || has_key(over, k),
    decreases over.len(),
{
    if over.len() > 0 {
        let shorter = over.drop_last();
        let last = over.last();
        lemma_overlay_keys(base, shorter, k);
        lemma_put(overlay(base, shorter), last.0, last.1, k);
        if has_key(over, k) {
            let i = choose|i: int| 0 <= i < over.len() && #[trigger] over[i].0 == k;
            if i < shorter.len() {
                assert(shorter[i].0 == k);
            }
        }
        if has_key(shorter, k) {
            let i = choose|i: int| 0 <= i < shorter.len() && #[trigger] shorter[i].0 == k;
            assert(over[i].0 == k);
        }
        if k == last.0 {
            assert(over[over.len() - 1].0 == k);
        }
    }
}

/// Merge precedence: in an overlay, a key that was put on top holds the value
/// that was put on top, and every other key holds what the base held.
pub proof fn lemma_overlay_lookup(
    base: Seq<(Seq<char>, JsonView)>,
    over: Seq<(Seq<char>, JsonView)>,
    k: Seq<char>,
)
    requires
        distinct_keys(over),
    ensures
        lookup(overlay(base, over), k) == if has_key(over, k) {
            lookup(over, k)
        } else {
            lookup(base, k)
        },
    decreases over.len(),
{
    lemma_key_index(over, k);
    if over.len() > 0 {
        let shorter = over.drop_last();
        let last = over.last();
        assert forall|i: int, j: int| 0 <= i < j < shorter.len() implies shorter[i].0
            != shorter[j].0 by {
            assert(shorter[i] == over[i] && shorter[j] == over[j]);
        }
        lemma_overlay_lookup(base, shorter, k);
        lemma_put(overlay(base, shorter), last.0, last.1, k);
        lemma_key_index(shorter, k);
        if k == last.0 {
            assert forall|i: int| 0 <= i < over.len() - 1 implies (#[trigger] over[i]).0 != k by {
                assert(over[i].0 != over[over.len() - 1].0);
            }
            lemma_key_index_unique(over, k, over.len() - 1);
        } else {
            let found = key_index(shorter, k);
            assert forall|i: int| 0 <= i < found implies (#[trigger] over[i]).0 != k by {
                assert(over[i] == shorter[i]);
            }
            if found < shorter.len() {
                assert(over[found] == shorter[found]);
                lemma_key_index_unique(over, k, found);
            } else {
                assert forall|i: int| 0 <= i < over.len() implies (#[trigger] over[i]).0 != k by {
                    if i < shorter.len() {
                        assert(over[i] == shorter[i]);
                    }
                }
                lemma_key_index_unique(over, k, over.len() as int);
            }
        }
    }
}

/// An overlay on a base without a key twice has no key twice.
pub proof fn lemma_overlay_distinct(
    base: Seq<(Seq<char>, JsonView)>,
    over: Seq<(Seq<char>, JsonView)>,
)
    requires
        distinct_keys(base),
    ensures
        distinct_keys(overlay(base, over)),
    decreases over.len(),
{
    if over.len() > 0 {
        lemma_overlay_distinct(base, over.drop_last());
        lemma_put(overlay(base, over.drop_last()), over.last().0, over.last().1, over.last().0);
    }
}

/// Merge precedence, for a request body: where the authentication fields and
/// the payload both have a key, the body holds the payload's value.
pub proof fn lemma_payload_wins(auth: JsonView, payload: JsonView, body: JsonView, key: Seq<char>)
    requires
        merged(auth, payload) == Ok::<JsonView, crate::signature::ShapeError>(body),
        distinct_keys(payload->Object_0),
        has_key(payload->Object_0, key),
    ensures
        body is Object,
        lookup(body->Object_0, key) == lookup(payload->Object_0, key),
{
    lemma_overlay_lookup(auth->Object_0, payload->Object_0, key);
}

/// The body of a signed request holds exactly the keys of the authentication
/// fields and of the payload; under each key of the payload it holds the
/// payload's value, and under every other key the authentication field.
pub proof fn lemma_request_body_members(
    client: ClientView,
    operation: Operation,
    data: JsonView,
    timestamp: u128,
    body: JsonView,
    key: Seq<char>,
)
    requires
        request_body(client, operation, data, timestamp) == Ok::<
            JsonView,
            crate::signature::RequestError,
        >(body),
    ensures
        data is Object,
        body is Object,
        signed_headers(client, operation, data, timestamp) is Ok,
        ({
            let auth = auth_view(signed_headers(client, operation, data, timestamp)->Ok_0);
            &&& has_key(body->Object_0, key) <==> has_key(auth->Object_0, key) || has_key(
                data->Object_0,
                key,
            )
            &&& has_key(data->Object_0, key) ==> lookup(body->Object_0, key) == lookup(
                data->Object_0,
                key,
            )
            &&& !has_key(data->Object_0, key) ==> lookup(body->Object_0, key) == lookup(
                auth->Object_0,
                key,
            )
        }),
{
    let auth = auth_view(signed_headers(client, operation, data, timestamp)->Ok_0);
    lemma_overlay_keys(auth->Object_0, data->Object_0, key);
    // a payload that was signed is well formed, so no key of it occurs twice
    let header = header_view(timestamp, EXPIRY_WINDOW_MS, operation, data);
    assert(header.well_formed());
    crate::json::lemma_values_well_formed(header->Object_0, header->Object_0.len());
    assert(header->Object_0[3].1 == data);
    assert(data.well_formed());
    lemma_overlay_lookup(auth->Object_0, data->Object_0, key);
}

/// The authentication fields carry the timestamp and the expiry window of the
/// header that was signed.
pub proof fn lemma_headers_bind_timestamp(
    client: ClientView,
    operation: Operation,
    data: JsonView,
    timestamp: u128,
    headers: RequestHeadersView,
)
    requires
        signed_headers(client, operation, data, timestamp) == Ok::<
            RequestHeadersView,
            crate::json::SerializationError,
        >(headers),
    ensures
        headers.timestamp == timestamp,
        headers.expiry_window == EXPIRY_WINDOW_MS,
        signing_text(operation, data, timestamp) == sorted_json(
            header_view(headers.timestamp, headers.expiry_window, operation, data),
        ),
{
}

/// Signature determinism: with one key, two signings of one operation, one
/// payload and one timestamp give the same signature, and the same fields
/// altogether.
pub proof fn lemma_signature_deterministic(
    client: ClientView,
    operation: Operation,
    data: JsonView,
    timestamp: u128,
    first: RequestHeadersView,
    second: RequestHeadersView,
)
    requires
        signed_headers(client, operation, data, timestamp) == Ok::<
            RequestHeadersView,
            crate::json::SerializationError,
        >(first),
        signed_headers(client, operation, data, timestamp) == Ok::<
            RequestHeadersView,
            crate::json::SerializationError,
        >(second),
    ensures
        first.signature == second.signature,
        first == second,
{
}

} // verus!
