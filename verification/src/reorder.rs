//! Values that differ only in the order of their keys, and why they share one
//! canonical form.

use crate::canonical::{
    canonical, canonical_items, canonical_values, lemma_canonical_items, lemma_canonical_values,
    sort_entries,
};
use crate::json::{
    distinct_keys, has_key, items_well_formed, key_index, lemma_items_well_formed, lemma_key_index,
    lemma_key_index_unique, lemma_values_well_formed, values_well_formed, JsonView,
};
use crate::ordering::{
    keys_ascending, lemma_ascending_unique, lemma_sort_entries, lemma_sort_entries_distinct,
    lemma_sorted_distinct_ascending, same_entries,
};
use vstd::prelude::*;

verus! {

/// The two values differ at most in the order in which their objects, at any
/// depth, list their entries. Two arrays are alike item by item. Two objects
/// are alike when every entry of the first has its key in the second, under a
/// value that is alike, and the second has no key besides.
pub open spec fn same_members(a: JsonView, b: JsonView) -> bool
    decreases a, 0nat,
{
    match a {
        JsonView::Array(x) => b is Array && x.len() == b->Array_0.len() && items_alike(
            x,
            b->Array_0,
            x.len(),
        ),
        JsonView::Object(x) => b is Object && entries_alike(x, b->Object_0, x.len()) && forall|
            j: int,
        |
            0 <= j < b->Object_0.len() ==> has_key(x, (#[trigger] b->Object_0[j]).0),
        _ => a == b,
    }
}

/// The first `n` items of `x` are alike those of `y`, place by place.
pub open spec fn items_alike(x: Seq<JsonView>, y: Seq<JsonView>, n: nat) -> bool
    decreases x, n,
{
    if n == 0 || n > x.len() {
        true
    } else {
        same_members(x[n - 1], y[n - 1]) && items_alike(x, y, (n - 1) as nat)
    }
}

/// Each of the first `n` entries of `x` has its key in `y`, under a value
/// that is alike.
pub open spec fn entries_alike(
    x: Seq<(Seq<char>, JsonView)>,
    y: Seq<(Seq<char>, JsonView)>,
    n: nat,
) -> bool
    decreases x, n,
{
    if n == 0 || n > x.len() {
        true
    } else {
        let at = key_index(y, x[n - 1].0);
        at < y.len() && same_members(x[n - 1].1, y[at].1) && entries_alike(x, y, (n - 1) as nat)
    }
}

/// Every object inside the value, at any depth, lists its keys in strictly
/// ascending order.
pub open spec fn is_canonical(v: JsonView) -> bool
    decreases v, 0nat,
{
    match v {
        JsonView::Array(items) => items_canonical(items, items.len()),
        JsonView::Object(entries) => keys_ascending(entries) && values_canonical(
            entries,
            entries.len(),
        ),
        _ => true,
    }
}

/// The first `n` items are canonical.
pub open spec fn items_canonical(items: Seq<JsonView>, n: nat) -> bool
    decreases items, n,
{
    if n == 0 || n > items.len() {
        true
    } else {
        is_canonical(items[n - 1]) && items_canonical(items, (n - 1) as nat)
    }
}

/// The values of the first `n` entries are canonical.
pub open spec fn values_canonical(entries: Seq<(Seq<char>, JsonView)>, n: nat) -> bool
    decreases entries, n,
{
    if n == 0 || n > entries.len() {
        true
    } else {
        is_canonical(entries[n - 1].1) && values_canonical(entries, (n - 1) as nat)
    }
}

/// The first `n` items are canonical exactly when each of them is.
pub proof fn lemma_items_canonical(items: Seq<JsonView>, n: nat)
    requires
        n <= items.len(),
    ensures
        items_canonical(items, n) <==> forall|i: int|
            0 <= i < n ==> is_canonical(#[trigger] items[i]),
    decreases n,
{
    if n > 0 {
        lemma_items_canonical(items, (n - 1) as nat);
    }
}

/// The values of the first `n` entries are canonical exactly when each of
/// them is.
pub proof fn lemma_values_canonical(entries: Seq<(Seq<char>, JsonView)>, n: nat)
    requires
        n <= entries.len(),
    ensures
        values_canonical(entries, n) <==> forall|i: int|
            0 <= i < n ==> is_canonical((#[trigger] entries[i]).1),
    decreases n,
{
    if n > 0 {
        lemma_values_canonical(entries, (n - 1) as nat);
    }
}

/// The canonical values keep the keys, so they keep them distinct.
proof fn lemma_canonical_values_distinct(entries: Seq<(Seq<char>, JsonView)>)
    requires
        distinct_keys(entries),
    ensures
        distinct_keys(canonical_values(entries, entries.len())),
{
    lemma_canonical_values(entries, entries.len());
}

/// Canonical ordering: two well-formed values that differ only in the order
/// of their keys, at any depth, have the same canonical form.
pub proof fn lemma_canonical_ignores_key_order(a: JsonView, b: JsonView)
    requires
        a.well_formed(),
        b.well_formed(),
        same_members(a, b),
    ensures
        canonical(a) == canonical(b),
    decreases a, 0nat,
{
    match a {
        JsonView::Array(x) => {
            let y = b->Array_0;
            lemma_items_ignore_key_order(x, y, x.len());
        },
        JsonView::Object(x) => {
            let y = b->Object_0;
            let cx = canonical_values(x, x.len());
            let cy = canonical_values(y, y.len());
            lemma_entries_ignore_key_order(x, y, x.len());
            lemma_canonical_values(x, x.len());
            lemma_canonical_values(y, y.len());
            assert forall|e: (Seq<char>, JsonView)| cx.contains(e) <==> cy.contains(e) by {
                if cx.contains(e) {
                    let i = choose|i: int| 0 <= i < cx.len() && cx[i] == e;
                    let at = key_index(y, x[i].0);
                    lemma_key_index(y, x[i].0);
                    assert(cy[at] == e);
                }
                if cy.contains(e) {
                    let j = choose|j: int| 0 <= j < cy.len() && cy[j] == e;
                    assert(has_key(x, y[j].0));
                    let i = choose|i: int| 0 <= i < x.len() && #[trigger] x[i].0 == y[j].0;
                    let at = key_index(y, x[i].0);
                    lemma_key_index(y, x[i].0);
                    assert(at == j);
                    assert(cx[i] == e);
                }
            }
            lemma_canonical_values_distinct(x);
            lemma_canonical_values_distinct(y);
            lemma_sort_entries(cx);
            lemma_sort_entries(cy);
            lemma_sort_entries_distinct(cx);
            lemma_sort_entries_distinct(cy);
            lemma_sorted_distinct_ascending(sort_entries(cx));
            lemma_sorted_distinct_ascending(sort_entries(cy));
            lemma_ascending_unique(sort_entries(cx), sort_entries(cy));
        },
        _ => {},
    }
}

/// Items that are alike place by place have the same canonical forms.
proof fn lemma_items_ignore_key_order(x: Seq<JsonView>, y: Seq<JsonView>, n: nat)
    requires
        n <= x.len(),
        x.len() == y.len(),
        items_well_formed(x, x.len()),
        items_well_formed(y, y.len()),
        items_alike(x, y, n),
    ensures
        canonical_items(x, n) == canonical_items(y, n),
    decreases x, n,
{
    if n > 0 {
        lemma_items_well_formed(x, x.len());
        lemma_items_well_formed(y, y.len());
        lemma_items_ignore_key_order(x, y, (n - 1) as nat);
        lemma_canonical_ignores_key_order(x[n - 1], y[n - 1]);
    }
}

/// Each entry of `x` has its key in `y`, under a value with the same
/// canonical form.
proof fn lemma_entries_ignore_key_order(
    x: Seq<(Seq<char>, JsonView)>,
    y: Seq<(Seq<char>, JsonView)>,
    n: nat,
)
    requires
        n <= x.len(),
        values_well_formed(x, x.len()),
        values_well_formed(y, y.len()),
        entries_alike(x, y, n),
    ensures
        forall|i: int|
            0 <= i < n ==> key_index(y, (#[trigger] x[i]).0) < y.len() && canonical(x[i].1)
                == canonical(y[key_index(y, x[i].0)].1),
    decreases x, n,
{
    if n > 0 {
        lemma_values_well_formed(x, x.len());
        lemma_values_well_formed(y, y.len());
        lemma_entries_ignore_key_order(x, y, (n - 1) as nat);
        let at = key_index(y, x[n - 1].0);
        lemma_key_index(y, x[n - 1].0);
        lemma_canonical_ignores_key_order(x[n - 1].1, y[at].1);
    }
}

/// The canonical form of a well-formed value is canonical: at any depth, the
/// keys of an object stand in strictly ascending byte order.
pub proof fn lemma_canonical_is_canonical(v: JsonView)
    requires
        v.well_formed(),
    ensures
        is_canonical(canonical(v)),
    decreases v, 0nat,
{
    match v {
        JsonView::Array(items) => {
            let out = canonical_items(items, items.len());
            lemma_canonical_items(items, items.len());
            lemma_items_well_formed(items, items.len());
            lemma_items_canonical(out, out.len());
            assert forall|i: int| 0 <= i < out.len() implies is_canonical(#[trigger] out[i]) by {
                lemma_canonical_is_canonical(items[i]);
            }
        },
        JsonView::Object(entries) => {
            let values = canonical_values(entries, entries.len());
            let out = sort_entries(values);
            lemma_canonical_values(entries, entries.len());
            lemma_values_well_formed(entries, entries.len());
            lemma_canonical_values_distinct(entries);
            lemma_sort_entries(values);
            lemma_sort_entries_distinct(values);
            lemma_sorted_distinct_ascending(out);
            lemma_values_canonical(out, out.len());
            assert forall|i: int| 0 <= i < out.len() implies is_canonical(
                (#[trigger] out[i]).1,
            ) by {
                assert(out.contains(out[i]));
                assert(values.contains(out[i]));
                let m = choose|m: int| 0 <= m < values.len() && values[m] == out[i];
                lemma_canonical_is_canonical(entries[m].1);
            }
        },
        _ => {},
    }
}

/// The canonical form of a well-formed value is well formed.
pub proof fn lemma_canonical_well_formed(v: JsonView)
    requires
        v.well_formed(),
    ensures
        canonical(v).well_formed(),
    decreases v, 0nat,
{
    match v {
        JsonView::Array(items) => {
            let out = canonical_items(items, items.len());
            lemma_canonical_items(items, items.len());
            lemma_items_well_formed(items, items.len());
            lemma_items_well_formed(out, out.len());
            assert forall|i: int| 0 <= i < out.len() implies (#[trigger] out[i]).well_formed() by {
                lemma_canonical_well_formed(items[i]);
            }
        },
        JsonView::Object(entries) => {
            let values = canonical_values(entries, entries.len());
            let out = sort_entries(values);
            lemma_canonical_values(entries, entries.len());
            lemma_values_well_formed(entries, entries.len());
            lemma_canonical_values_distinct(entries);
            lemma_sort_entries(values);
            lemma_sort_entries_distinct(values);
            lemma_values_well_formed(out, out.len());
            assert forall|i: int| 0 <= i < out.len() implies (#[trigger] out[i]).1.well_formed() by {
                assert(out.contains(out[i]));
                assert(values.contains(out[i]));
                let m = choose|m: int| 0 <= m < values.len() && values[m] == out[i];
                lemma_canonical_well_formed(entries[m].1);
            }
        },
        _ => {},
    }
}

/// Items are alike up to `n` when each is alike its counterpart.
proof fn lemma_items_alike(x: Seq<JsonView>, y: Seq<JsonView>, n: nat)
    requires
        n <= x.len(),
        forall|i: int| 0 <= i < n ==> same_members(#[trigger] x[i], y[i]),
    ensures
        items_alike(x, y, n),
    decreases n,
{
    if n > 0 {
        lemma_items_alike(x, y, (n - 1) as nat);
    }
}

/// Entries are alike up to `n` when each has its key in `y`, under a value
/// that is alike.
proof fn lemma_entries_alike(
    x: Seq<(Seq<char>, JsonView)>,
    y: Seq<(Seq<char>, JsonView)>,
    n: nat,
)
    requires
        n <= x.len(),
        forall|i: int|
            0 <= i < n ==> key_index(y, (#[trigger] x[i]).0) < y.len() && same_members(
                x[i].1,
                y[key_index(y, x[i].0)].1,
            ),
    ensures
        entries_alike(x, y, n),
    decreases n,
{
    if n > 0 {
        lemma_entries_alike(x, y, (n - 1) as nat);
    }
}

/// The canonical form of a well-formed value differs from the value only in
/// the order of keys: nothing is lost, added or changed.
pub proof fn lemma_canonical_keeps_members(v: JsonView)
    requires
        v.well_formed(),
    ensures
        same_members(v, canonical(v)),
    decreases v, 0nat,
{
    match v {
        JsonView::Array(items) => {
            let out = canonical_items(items, items.len());
            lemma_canonical_items(items, items.len());
            lemma_items_well_formed(items, items.len());
            assert forall|i: int| 0 <= i < items.len() implies same_members(
                #[trigger] items[i],
                out[i],
            ) by {
                lemma_canonical_keeps_members(items[i]);
            }
            lemma_items_alike(items, out, items.len());
        },
        JsonView::Object(entries) => {
            let values = canonical_values(entries, entries.len());
            let out = sort_entries(values);
            lemma_canonical_values(entries, entries.len());
            lemma_values_well_formed(entries, entries.len());
            lemma_canonical_values_distinct(entries);
            lemma_sort_entries(values);
            lemma_sort_entries_distinct(values);
            assert forall|i: int| 0 <= i < entries.len() implies key_index(
                out,
                (#[trigger] entries[i]).0,
            ) < out.len() && same_members(entries[i].1, out[key_index(out, entries[i].0)].1) by {
                assert(values.contains(values[i]));
                assert(out.contains(values[i]));
                let m = choose|m: int| 0 <= m < out.len() && out[m] == values[i];
                assert forall|j: int| 0 <= j < m implies (#[trigger] out[j]).0 != entries[i].0 by {
                    assert(out[j].0 != out[m].0);
                }
                lemma_key_index_unique(out, entries[i].0, m);
                lemma_canonical_keeps_members(entries[i].1);
            }
            lemma_entries_alike(entries, out, entries.len());
            assert forall|j: int| 0 <= j < out.len() implies has_key(
                entries,
                (#[trigger] out[j]).0,
            ) by {
                assert(out.contains(out[j]));
                assert(values.contains(out[j]));
                let m = choose|m: int| 0 <= m < values.len() && values[m] == out[j];
                assert(entries[m].0 == out[j].0);
            }
        },
        _ => {},
    }
}

/// Array order preserved: the canonical form of an array is an array of the
/// same length that holds, at each place, the canonical form of the item at
/// that place. Arrays are never sorted.
pub proof fn lemma_canonical_keeps_array_order(items: Seq<JsonView>)
    ensures
        canonical(JsonView::Array(items)) is Array,
        canonical(JsonView::Array(items))->Array_0.len() == items.len(),
        forall|i: int|
            0 <= i < items.len() ==> #[trigger] canonical(JsonView::Array(items))->Array_0[i]
                == canonical(items[i]),
{
    lemma_canonical_items(items, items.len());
}

/// A scalar is its own canonical form.
pub proof fn lemma_canonical_keeps_scalars(v: JsonView)
    requires
        !(v is Array),
        !(v is Object),
    ensures
        canonical(v) == v,
{
}

} // verus!
