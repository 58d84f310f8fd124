//! The canonical form of a structured value: every object's keys in ascending
//! byte order, arrays and scalars as they are.

use crate::json::{
    entries_view, items_view, lemma_array_view, lemma_object_view, Json, JsonView,
    SerializationError,
};
use crate::reorder::{
    lemma_canonical_ignores_key_order, lemma_canonical_well_formed, same_members,
};
use crate::text::{text_of, well_formed_to_text};
use vstd::prelude::*;

verus! {

/// Strict lexicographic order on byte strings: at the first place where the
/// two differ the smaller byte decides, and a proper prefix comes first.
pub open spec fn bytes_lt(a: Seq<u8>, b: Seq<u8>) -> bool
    decreases a.len(),
{
    if b.len() == 0 {
        false
    } else if a.len() == 0 {
        true
    } else if a[0] != b[0] {
        a[0] < b[0]
    } else {
        bytes_lt(a.drop_first(), b.drop_first())
    }
}

/// The order of keys: that of their UTF-8 bytes.
pub open spec fn key_lt(a: Seq<char>, b: Seq<char>) -> bool {
    bytes_lt(vstd::utf8::encode_utf8(a), vstd::utf8::encode_utf8(b))
}

/// No byte string comes before itself.
pub proof fn lemma_bytes_lt_irreflexive(a: Seq<u8>)
    ensures
        !bytes_lt(a, a),
    decreases a.len(),
{
    if a.len() > 0 {
        lemma_bytes_lt_irreflexive(a.drop_first());
    }
}

/// Of two byte strings at most one comes before the other.
pub proof fn lemma_bytes_lt_asymmetric(a: Seq<u8>, b: Seq<u8>)
    requires
        bytes_lt(a, b),
    ensures
        !bytes_lt(b, a),
    decreases a.len(),
{
    if a.len() > 0 && b.len() > 0 && a[0] == b[0] {
        lemma_bytes_lt_asymmetric(a.drop_first(), b.drop_first());
    }
}

/// The order on byte strings is transitive.
pub proof fn lemma_bytes_lt_transitive(a: Seq<u8>, b: Seq<u8>, c: Seq<u8>)
    requires
        bytes_lt(a, b),
        bytes_lt(b, c),
    ensures
        bytes_lt(a, c),
    decreases a.len(),
{
    if a.len() > 0 && b.len() > 0 && c.len() > 0 && a[0] == b[0] && b[0] == c[0] {
        lemma_bytes_lt_transitive(a.drop_first(), b.drop_first(), c.drop_first());
    }
}

/// Two byte strings of which neither comes before the other are equal.
pub proof fn lemma_bytes_lt_total(a: Seq<u8>, b: Seq<u8>)
    requires
        !bytes_lt(a, b),
        !bytes_lt(b, a),
    ensures
        a == b,
    decreases a.len(),
{
    if a.len() == 0 || b.len() == 0 {
        assert(a =~= b);
    } else {
        lemma_bytes_lt_total(a.drop_first(), b.drop_first());
        assert(a =~= seq![a[0]] + a.drop_first());
        assert(b =~= seq![b[0]] + b.drop_first());
    }
}

/// No key comes before itself.
pub proof fn lemma_key_lt_irreflexive(a: Seq<char>)
    ensures
        !key_lt(a, a),
{
    lemma_bytes_lt_irreflexive(vstd::utf8::encode_utf8(a));
}

/// Of two keys at most one comes before the other.
pub proof fn lemma_key_lt_asymmetric(a: Seq<char>, b: Seq<char>)
    requires
        key_lt(a, b),
    ensures
        !key_lt(b, a),
{
    lemma_bytes_lt_asymmetric(vstd::utf8::encode_utf8(a), vstd::utf8::encode_utf8(b));
}

/// The order of keys is transitive.
pub proof fn lemma_key_lt_transitive(a: Seq<char>, b: Seq<char>, c: Seq<char>)
    requires
        key_lt(a, b),
        key_lt(b, c),
    ensures
        key_lt(a, c),
{
    lemma_bytes_lt_transitive(
        vstd::utf8::encode_utf8(a),
        vstd::utf8::encode_utf8(b),
        vstd::utf8::encode_utf8(c),
    );
}

/// Two keys of which neither comes before the other are the same key.
pub proof fn lemma_key_lt_total(a: Seq<char>, b: Seq<char>)
    requires
        !key_lt(a, b),
        !key_lt(b, a),
    ensures
        a == b,
{
    lemma_bytes_lt_total(vstd::utf8::encode_utf8(a), vstd::utf8::encode_utf8(b));
    vstd::utf8::encode_utf8_decode_utf8(a);
    vstd::utf8::encode_utf8_decode_utf8(b);
}

/// Whether key `a` comes before key `b`.
pub fn key_less(a: &str, b: &str) -> (r: bool)
    ensures
        r == key_lt(a@, b@),
{
    let x = a.as_bytes();
    let y = b.as_bytes();
    let mut i: usize = 0;
    proof {
        assert(x@.skip(0) =~= x@);
        assert(y@.skip(0) =~= y@);
    }
    while i < x.len() && i < y.len()
        invariant
            i <= x.len(),
            i <= y.len(),
            x@ == vstd::utf8::encode_utf8(a@),
            y@ == vstd::utf8::encode_utf8(b@),
            bytes_lt(x@, y@) == bytes_lt(x@.skip(i as int), y@.skip(i as int)),
        decreases x.len() - i,
    {
        proof {
            assert(x@.skip(i as int)[0] == x@[i as int]);
            assert(y@.skip(i as int)[0] == y@[i as int]);
            assert(x@.skip(i as int).drop_first() =~= x@.skip(i + 1));
            assert(y@.skip(i as int).drop_first() =~= y@.skip(i + 1));
        }
        if x[i] != y[i] {
            return x[i] < y[i];
        }
        i += 1;
    }
    i < y.len()
}

/// How many entries at the front of `sorted` have a key that does not come
/// after `key`: the place at which an entry with that key is put in.
pub open spec fn sorted_position(sorted: Seq<(Seq<char>, JsonView)>, key: Seq<char>) -> int
    decreases sorted.len(),
{
    if sorted.len() == 0 || key_lt(key, sorted[0].0) {
        0
    } else {
        1 + sorted_position(sorted.drop_first(), key)
    }
}

/// The entries put in order of their keys, one after the other from the
/// first; entries with one key keep the order in which they stood.
pub open spec fn sort_entries(entries: Seq<(Seq<char>, JsonView)>) -> Seq<(Seq<char>, JsonView)>
    decreases entries.len(),
{
    if entries.len() == 0 {
        entries
    } else {
        let rest = sort_entries(entries.drop_last());
        rest.insert(sorted_position(rest, entries.last().0), entries.last())
    }
}

/// The canonical form of a value: an object's entries are sorted by key and
/// their values are canonical, an array's items are canonical and stay in
/// their order, a scalar is itself.
pub open spec fn canonical(v: JsonView) -> JsonView
    decreases v, 0nat,
{
    match v {
        JsonView::Array(items) => JsonView::Array(canonical_items(items, items.len())),
        JsonView::Object(entries) => JsonView::Object(
            sort_entries(canonical_values(entries, entries.len())),
        ),
        _ => v,
    }
}

/// The canonical forms of the first `n` items, in the items' order.
pub open spec fn canonical_items(items: Seq<JsonView>, n: nat) -> Seq<JsonView>
    decreases items, n,
{
    if n == 0 || n > items.len() {
        Seq::empty()
    } else {
        canonical_items(items, (n - 1) as nat).push(canonical(items[n - 1]))
    }
}

/// The first `n` entries in their order, each value in canonical form.
pub open spec fn canonical_values(entries: Seq<(Seq<char>, JsonView)>, n: nat) -> Seq<
    (Seq<char>, JsonView),
>
    decreases entries, n,
{
    if n == 0 || n > entries.len() {
        Seq::empty()
    } else {
        canonical_values(entries, (n - 1) as nat).push(
            (entries[n - 1].0, canonical(entries[n - 1].1)),
        )
    }
}

/// `canonical_items` holds, item for item, the canonical forms.
pub proof fn lemma_canonical_items(items: Seq<JsonView>, n: nat)
    requires
        n <= items.len(),
    ensures
        canonical_items(items, n).len() == n,
        forall|i: int| 0 <= i < n ==> #[trigger] canonical_items(items, n)[i] == canonical(items[i]),
    decreases n,
{
    if n > 0 {
        lemma_canonical_items(items, (n - 1) as nat);
    }
}

/// `canonical_values` holds, entry for entry, the key and the canonical form
/// of the value.
pub proof fn lemma_canonical_values(entries: Seq<(Seq<char>, JsonView)>, n: nat)
    requires
        n <= entries.len(),
    ensures
        canonical_values(entries, n).len() == n,
        forall|i: int|
            0 <= i < n ==> #[trigger] canonical_values(entries, n)[i] == (
                entries[i].0,
                canonical(entries[i].1),
            ),
    decreases n,
{
    if n > 0 {
        lemma_canonical_values(entries, (n - 1) as nat);
    }
}

/// `sorted_position` counts on from any place that it has passed.
proof fn lemma_sorted_position_skip(sorted: Seq<(Seq<char>, JsonView)>, key: Seq<char>, i: int)
    requires
        0 <= i <= sorted.len(),
        forall|j: int| 0 <= j < i ==> !key_lt(key, (#[trigger] sorted[j]).0),
    ensures
        sorted_position(sorted, key) == i + sorted_position(sorted.skip(i), key),
    decreases i,
{
    if i == 0 {
        assert(sorted.skip(0) =~= sorted);
    } else {
        lemma_sorted_position_skip(sorted, key, i - 1);
        let tail = sorted.skip(i - 1);
        assert(tail[0] == sorted[i - 1]);
        assert(tail.drop_first() =~= sorted.skip(i));
    }
}

/// Puts an entry into a sorted list, behind the entries whose key does not
/// come after its own.
fn insert_entry(sorted: &mut Vec<(String, Json)>, key: String, value: Json)
    ensures
        entries_view(final(sorted)@) == entries_view(old(sorted)@).insert(
            sorted_position(entries_view(old(sorted)@), key@),
            (key@, value@),
        ),
{
    let ghost before = entries_view(sorted@);
    let mut i: usize = 0;
    while i < sorted.len() && !key_less(key.as_str(), sorted[i].0.as_str())
        invariant
            i <= sorted.len(),
            before == entries_view(sorted@),
            forall|j: int| 0 <= j < i ==> !key_lt(key@, (#[trigger] before[j]).0),
        decreases sorted.len() - i,
    {
        i += 1;
    }
    proof {
        lemma_sorted_position_skip(before, key@, i as int);
        if i < sorted.len() {
            assert(before.skip(i as int)[0] == before[i as int]);
        }
        assert(sorted_position(before, key@) == i);
    }
    sorted.insert(i, (key, value));
    proof {
        assert(entries_view(sorted@) =~= before.insert(i as int, (key@, value@)));
    }
}

/// Rewrites a value into its canonical form: at any depth, an object's keys
/// in ascending byte order; arrays and scalars unchanged.
#[verifier::loop_isolation(false)]
pub fn sort_json_value(v: &Json) -> (r: Json)
    ensures
        r@ == canonical(v@),
    decreases v,
{
    match v {
        Json::Object(entries) => {
            let ghost views = entries_view(entries@);
            let mut sorted: Vec<(String, Json)> = Vec::with_capacity(entries.len());
            let mut i: usize = 0;
            while i < entries.len()
                invariant
                    i <= entries.len(),
                    entries_view(sorted@) == sort_entries(canonical_values(views, i as nat)),
                decreases entries.len() - i,
            {
                let key = entries[i].0.clone();
                let value = sort_json_value(&entries[i].1);
                proof {
                    let next = canonical_values(views, (i + 1) as nat);
                    assert(next.drop_last() =~= canonical_values(views, i as nat));
                    assert(next.last() == (key@, value@));
                }
                insert_entry(&mut sorted, key, value);
                i += 1;
            }
            proof {
                lemma_object_view(*entries);
                lemma_object_view(sorted);
            }
            Json::Object(sorted)
        },
        Json::Array(items) => {
            let ghost views = items_view(items@);
            let mut out: Vec<Json> = Vec::with_capacity(items.len());
            let mut i: usize = 0;
            while i < items.len()
                invariant
                    i <= items.len(),
                    items_view(out@) == canonical_items(views, i as nat),
                decreases items.len() - i,
            {
                let item = sort_json_value(&items[i]);
                proof {
                    assert(items_view(out@.push(item)) =~= items_view(out@).push(item@));
                }
                out.push(item);
                i += 1;
            }
            proof {
                lemma_array_view(*items);
                lemma_array_view(out);
            }
            Json::Array(out)
        },
        Json::Null => Json::Null,
        Json::Bool(b) => Json::Bool(*b),
        Json::UInt(n) => Json::UInt(*n),
        Json::Int(n) => Json::Int(*n),
        Json::Str(s) => Json::Str(s.clone()),
    }
}

/// The canonical text of a value: the text of its canonical form. A value in
/// which an object holds a key twice has none.
pub open spec fn sorted_json(v: JsonView) -> Result<Seq<char>, SerializationError> {
    if v.well_formed() {
        text_of(canonical(v))
    } else {
        Err(SerializationError::DuplicateKey)
    }
}

/// Writes a value as canonical text: the JSON text of its canonical form, so
/// that values which differ only in the order of their keys give one text.
pub fn to_sorted_json(value: &Json) -> (r: Result<String, SerializationError>)
    ensures
        r matches Ok(text) ==> sorted_json(value@) == Ok::<Seq<char>, SerializationError>(text@),
        r matches Err(e) ==> sorted_json(value@) == Err::<Seq<char>, SerializationError>(e),
{
    if !value.is_well_formed() {
        return Err(SerializationError::DuplicateKey);
    }
    let sorted = sort_json_value(value);
    proof {
        lemma_canonical_well_formed(value@);
    }
    well_formed_to_text(&sorted)
}

/// Canonical ordering, for the text: two well-formed values that differ only
/// in the order of their keys, at any depth, have the same canonical text.
pub proof fn lemma_sorted_json_ignores_key_order(a: JsonView, b: JsonView)
    requires
        a.well_formed(),
        b.well_formed(),
        same_members(a, b),
    ensures
        sorted_json(a) == sorted_json(b),
{
    lemma_canonical_ignores_key_order(a, b);
}

} // verus!
