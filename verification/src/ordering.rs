//! What sorting by key does to a list of entries.

use crate::canonical::{
    key_lt, lemma_key_lt_asymmetric, lemma_key_lt_irreflexive, lemma_key_lt_total,
    lemma_key_lt_transitive, sort_entries, sorted_position,
};
use crate::json::{distinct_keys, JsonView};
use vstd::prelude::*;

verus! {

/// No entry's key comes before the key of an entry that stands earlier.
pub open spec fn keys_sorted(entries: Seq<(Seq<char>, JsonView)>) -> bool {
    forall|i: int, j: int|
        0 <= i < j < entries.len() ==> !key_lt(
            (#[trigger] entries[j]).0,
            (#[trigger] entries[i]).0,
        )
}

/// Each entry's key comes before the keys of all entries behind it.
pub open spec fn keys_ascending(entries: Seq<(Seq<char>, JsonView)>) -> bool {
    forall|i: int, j: int|
        0 <= i < j < entries.len() ==> key_lt(
            (#[trigger] entries[i]).0,
            (#[trigger] entries[j]).0,
        )
}

/// The two lists hold the same entries, in whatever order.
pub open spec fn same_entries(
    a: Seq<(Seq<char>, JsonView)>,
    b: Seq<(Seq<char>, JsonView)>,
) -> bool {
    forall|e: (Seq<char>, JsonView)| a.contains(e) <==> b.contains(e)
}

/// In a sorted list, `sorted_position` parts the entries whose key does not
/// come after `key` from those whose key does.
pub proof fn lemma_sorted_position(sorted: Seq<(Seq<char>, JsonView)>, key: Seq<char>)
    requires
        keys_sorted(sorted),
    ensures
        0 <= sorted_position(sorted, key) <= sorted.len(),
        forall|j: int|
            0 <= j < sorted_position(sorted, key) ==> !key_lt(key, (#[trigger] sorted[j]).0),
        forall|j: int|
            sorted_position(sorted, key) <= j < sorted.len() ==> key_lt(
                key,
                (#[trigger] sorted[j]).0,
            ),
    decreases sorted.len(),
{
    if sorted.len() == 0 {
    } else if key_lt(key, sorted[0].0) {
        assert forall|j: int| 0 <= j < sorted.len() implies key_lt(key, (#[trigger] sorted[j]).0) by {
            if j > 0 {
                if !key_lt(key, sorted[j].0) {
                    // sorted[j] <= key < sorted[0], against the order of the list
                    if key_lt(sorted[j].0, key) {
                        lemma_key_lt_transitive(sorted[j].0, key, sorted[0].0);
                    } else {
                        lemma_key_lt_total(sorted[j].0, key);
                    }
                    assert(key_lt(sorted[j].0, sorted[0].0));
                }
            }
        }
    } else {
        let rest = sorted.drop_first();
        assert forall|i: int, j: int| 0 <= i < j < rest.len() implies !key_lt(
            (#[trigger] rest[j]).0,
            (#[trigger] rest[i]).0,
        ) by {
            assert(rest[i] == sorted[i + 1]);
            assert(rest[j] == sorted[j + 1]);
        }
        lemma_sorted_position(rest, key);
        let p = sorted_position(sorted, key);
        assert forall|j: int| 0 <= j < p implies !key_lt(key, (#[trigger] sorted[j]).0) by {
            if j > 0 {
                assert(sorted[j] == rest[j - 1]);
            }
        }
        assert forall|j: int| p <= j < sorted.len() implies key_lt(key, (#[trigger] sorted[j]).0) by {
            assert(sorted[j] == rest[j - 1]);
        }
    }
}

/// Sorting keeps the number of entries and the entries themselves, and leaves
/// them in the order of their keys.
pub proof fn lemma_sort_entries(entries: Seq<(Seq<char>, JsonView)>)
    ensures
        sort_entries(entries).len() == entries.len(),
        keys_sorted(sort_entries(entries)),
        same_entries(sort_entries(entries), entries),
    decreases entries.len(),
{
    if entries.len() == 0 {
    } else {
        let shorter = entries.drop_last();
        let last = entries.last();
        let rest = sort_entries(shorter);
        lemma_sort_entries(shorter);
        lemma_sorted_position(rest, last.0);
        let p = sorted_position(rest, last.0);
        let out = rest.insert(p, last);
        assert(out == sort_entries(entries));
        assert forall|i: int, j: int| 0 <= i < j < out.len() implies !key_lt(
            (#[trigger] out[j]).0,
            (#[trigger] out[i]).0,
        ) by {
            if j < p {
                assert(out[i] == rest[i] && out[j] == rest[j]);
            } else if j == p {
                assert(out[i] == rest[i]);
                if key_lt(last.0, rest[i].0) {
                }
            } else if i < p {
                assert(out[i] == rest[i] && out[j] == rest[j - 1]);
            } else if i == p {
                assert(out[j] == rest[j - 1]);
                assert(key_lt(last.0, rest[j - 1].0));
                lemma_key_lt_asymmetric(last.0, rest[j - 1].0);
            } else {
                assert(out[i] == rest[i - 1] && out[j] == rest[j - 1]);
            }
        }
        assert forall|e: (Seq<char>, JsonView)| out.contains(e) <==> entries.contains(e) by {
            if out.contains(e) {
                let k = choose|k: int| 0 <= k < out.len() && out[k] == e;
                if k == p {
                    assert(entries[entries.len() - 1] == e);
                } else {
                    let m = if k < p {
                        k
                    } else {
                        k - 1
                    };
                    assert(rest[m] == e);
                    assert(rest.contains(e));
                    assert(shorter.contains(e));
                    let n = choose|n: int| 0 <= n < shorter.len() && shorter[n] == e;
                    assert(entries[n] == e);
                }
            }
            if entries.contains(e) {
                let n = choose|n: int| 0 <= n < entries.len() && entries[n] == e;
                if n == entries.len() - 1 {
                    assert(out[p] == e);
                } else {
                    assert(shorter[n] == e);
                    assert(shorter.contains(e));
                    assert(rest.contains(e));
                    let m = choose|m: int| 0 <= m < rest.len() && rest[m] == e;
                    if m < p {
                        assert(out[m] == e);
                    } else {
                        assert(out[m + 1] == e);
                    }
                }
            }
        }
    }
}

/// Where no key occurs twice, sorting leaves it so.
pub proof fn lemma_sort_entries_distinct(entries: Seq<(Seq<char>, JsonView)>)
    requires
        distinct_keys(entries),
    ensures
        distinct_keys(sort_entries(entries)),
    decreases entries.len(),
{
    if entries.len() == 0 {
    } else {
        let shorter = entries.drop_last();
        let last = entries.last();
        let rest = sort_entries(shorter);
        assert forall|i: int, j: int| 0 <= i < j < shorter.len() implies shorter[i].0
            != shorter[j].0 by {
            assert(shorter[i] == entries[i] && shorter[j] == entries[j]);
        }
        lemma_sort_entries_distinct(shorter);
        lemma_sort_entries(shorter);
        lemma_sorted_position(rest, last.0);
        let p = sorted_position(rest, last.0);
        let out = rest.insert(p, last);
        assert forall|m: int| 0 <= m < rest.len() implies (#[trigger] rest[m]).0 != last.0 by {
            assert(rest.contains(rest[m]));
            assert(shorter.contains(rest[m]));
            let n = choose|n: int| 0 <= n < shorter.len() && shorter[n] == rest[m];
            assert(entries[n] == shorter[n]);
            assert(entries[n].0 != entries[entries.len() - 1].0);
        }
        assert forall|i: int, j: int| 0 <= i < j < out.len() implies out[i].0 != out[j].0 by {
            let a = if i < p {
                i
            } else {
                i - 1
            };
            let b = if j < p {
                j
            } else {
                j - 1
            };
            if i == p {
                assert(out[j] == rest[b]);
            } else if j == p {
                assert(out[i] == rest[a]);
            } else {
                assert(out[i] == rest[a] && out[j] == rest[b]);
            }
        }
    }
}

/// A sorted list in which no key occurs twice ascends strictly.
pub proof fn lemma_sorted_distinct_ascending(entries: Seq<(Seq<char>, JsonView)>)
    requires
        keys_sorted(entries),
        distinct_keys(entries),
    ensures
        keys_ascending(entries),
{
    assert forall|i: int, j: int| 0 <= i < j < entries.len() implies key_lt(
        (#[trigger] entries[i]).0,
        (#[trigger] entries[j]).0,
    ) by {
        if !key_lt(entries[i].0, entries[j].0) {
            lemma_key_lt_total(entries[i].0, entries[j].0);
        }
    }
}

/// Two strictly ascending lists that hold the same entries are one list.
pub proof fn lemma_ascending_unique(
    a: Seq<(Seq<char>, JsonView)>,
    b: Seq<(Seq<char>, JsonView)>,
)
    requires
        keys_ascending(a),
        keys_ascending(b),
        same_entries(a, b),
    ensures
        a == b,
    decreases a.len(),
{
    if a.len() == 0 {
        if b.len() > 0 {
            assert(b.contains(b[0]));
        }
        assert(a =~= b);
    } else {
        assert(a.contains(a[0]));
        let j = choose|j: int| 0 <= j < b.len() && b[j] == a[0];
        assert(b.contains(b[0]));
        let i = choose|i: int| 0 <= i < a.len() && a[i] == b[0];
        if j > 0 {
            // b[0] < b[j] == a[0] <= a[i] == b[0]
            assert(key_lt(b[0].0, b[j].0));
            if i > 0 {
                assert(key_lt(a[0].0, a[i].0));
                lemma_key_lt_asymmetric(a[0].0, a[i].0);
            } else {
                lemma_key_lt_irreflexive(a[0].0);
            }
        }
        assert(a[0] == b[0]);
        let ta = a.drop_first();
        let tb = b.drop_first();
        assert forall|x: int, y: int| 0 <= x < y < ta.len() implies key_lt(
            (#[trigger] ta[x]).0,
            (#[trigger] ta[y]).0,
        ) by {
            assert(ta[x] == a[x + 1] && ta[y] == a[y + 1]);
        }
        assert forall|x: int, y: int| 0 <= x < y < tb.len() implies key_lt(
            (#[trigger] tb[x]).0,
            (#[trigger] tb[y]).0,
        ) by {
            assert(tb[x] == b[x + 1] && tb[y] == b[y + 1]);
        }
        assert forall|e: (Seq<char>, JsonView)| ta.contains(e) <==> tb.contains(e) by {
            if ta.contains(e) {
                let k = choose|k: int| 0 <= k < ta.len() && ta[k] == e;
                assert(a[k + 1] == e);
                assert(a.contains(e));
                let m = choose|m: int| 0 <= m < b.len() && b[m] == e;
                assert(key_lt(a[0].0, a[k + 1].0));
                if m == 0 {
                    lemma_key_lt_irreflexive(a[0].0);
                }
                assert(tb[m - 1] == e);
            }
            if tb.contains(e) {
                let k = choose|k: int| 0 <= k < tb.len() && tb[k] == e;
                assert(b[k + 1] == e);
                assert(b.contains(e));
                let m = choose|m: int| 0 <= m < a.len() && a[m] == e;
                assert(key_lt(b[0].0, b[k + 1].0));
                if m == 0 {
                    lemma_key_lt_irreflexive(b[0].0);
                }
                assert(ta[m - 1] == e);
            }
        }
        lemma_ascending_unique(ta, tb);
        assert(a =~= seq![a[0]] + ta);
        assert(b =~= seq![b[0]] + tb);
    }
}

} // verus!
