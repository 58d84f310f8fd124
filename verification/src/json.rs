//! Structured values: the data that requests and stream messages are made of.

use vstd::prelude::*;

verus! {

/// A structured value: scalars, arrays, and objects. An object keeps its
/// entries in the order in which they were written.
#[derive(Debug, PartialEq, Eq)]
pub enum Json {
    Null,
    Bool(bool),
    /// A number that is not negative.
    UInt(u64),
    /// A signed number.
    Int(i64),
    Str(String),
    Array(Vec<Json>),
    Object(Vec<(String, Json)>),
}

/// The mathematical value that a [`Json`] stands for. The two number variants
/// of [`Json`] meet in one integer.
pub enum JsonView {
    Null,
    Bool(bool),
    Number(int),
    Str(Seq<char>),
    Array(Seq<JsonView>),
    Object(Seq<(Seq<char>, JsonView)>),
}

/// Why a value cannot be written as text.
#[derive(Debug, Clone, Copy, PartialEq, Eq, Structural)]
pub enum SerializationError {
    /// An object holds the same key twice.
    DuplicateKey,
    /// A number does not fit in 64 bits.
    NumberOutOfRange,
    /// The encoder gave up on the value.
    Encoding,
}

impl View for Json {
    type V = JsonView;

    open spec fn view(&self) -> JsonView
        decreases self,
    {
        match self {
            Json::Null => JsonView::Null,
            Json::Bool(b) => JsonView::Bool(*b),
            Json::UInt(n) => JsonView::Number(*n as int),
            Json::Int(n) => JsonView::Number(*n as int),
            Json::Str(s) => JsonView::Str(s@),
            Json::Array(items) => JsonView::Array(
                Seq::new(
                    items.len() as nat,
                    |i: int|
                        if 0 <= i < items.len() {
                            items[i].view()
                        } else {
                            JsonView::Null
                        },
                ),
            ),
            Json::Object(entries) => JsonView::Object(
                Seq::new(
                    entries.len() as nat,
                    |i: int|
                        (
                            entries[i].0@,
                            if 0 <= i < entries.len() {
                                entries[i].1.view()
                            } else {
                                JsonView::Null
                            },
                        ),
                ),
            ),
        }
    }
}

/// The values that a sequence of items stands for, one by one.
pub open spec fn items_view(items: Seq<Json>) -> Seq<JsonView> {
    Seq::new(items.len(), |i: int| items[i]@)
}

/// The keys and values that a sequence of entries stands for, one by one.
pub open spec fn entries_view(entries: Seq<(String, Json)>) -> Seq<(Seq<char>, JsonView)> {
    Seq::new(entries.len(), |i: int| (entries[i].0@, entries[i].1@))
}

/// No key occurs twice among the entries.
pub open spec fn distinct_keys(entries: Seq<(Seq<char>, JsonView)>) -> bool {
    forall|i: int, j: int| 0 <= i < j < entries.len() ==> entries[i].0 != entries[j].0
}

/// Some entry has this key.
pub open spec fn has_key(entries: Seq<(Seq<char>, JsonView)>, key: Seq<char>) -> bool {
    exists|i: int| 0 <= i < entries.len() && #[trigger] entries[i].0 == key
}

/// The place of the first entry with this key, or the number of entries where
/// none has it.
pub open spec fn key_index(entries: Seq<(Seq<char>, JsonView)>, key: Seq<char>) -> int
    decreases entries.len(),
{
    if entries.len() == 0 || entries[0].0 == key {
        0
    } else {
        1 + key_index(entries.drop_first(), key)
    }
}

/// The value under this key, in the first entry that has it.
pub open spec fn lookup(entries: Seq<(Seq<char>, JsonView)>, key: Seq<char>) -> Option<JsonView> {
    if key_index(entries, key) < entries.len() {
        Some(entries[key_index(entries, key)].1)
    } else {
        None
    }
}

impl JsonView {
    /// Every object inside the value, at any depth, names each key once.
    pub open spec fn well_formed(self) -> bool
        decreases self, 0nat,
    {
        match self {
            JsonView::Array(items) => items_well_formed(items, items.len()),
            JsonView::Object(entries) => distinct_keys(entries) && values_well_formed(
                entries,
                entries.len(),
            ),
            _ => true,
        }
    }
}

/// The first `n` items are well formed.
pub open spec fn items_well_formed(items: Seq<JsonView>, n: nat) -> bool
    decreases items, n,
{
    if n == 0 || n > items.len() {
        true
    } else {
        items[n - 1].well_formed() && items_well_formed(items, (n - 1) as nat)
    }
}

/// The values of the first `n` entries are well formed.
pub open spec fn values_well_formed(entries: Seq<(Seq<char>, JsonView)>, n: nat) -> bool
    decreases entries, n,
{
    if n == 0 || n > entries.len() {
        true
    } else {
        entries[n - 1].1.well_formed() && values_well_formed(entries, (n - 1) as nat)
    }
}

/// The first `n` items are well formed exactly when each of them is.
pub proof fn lemma_items_well_formed(items: Seq<JsonView>, n: nat)
    requires
        n <= items.len(),
    ensures
        items_well_formed(items, n) <==> forall|i: int|
            0 <= i < n ==> (#[trigger] items[i]).well_formed(),
    decreases n,
{
    if n > 0 {
        lemma_items_well_formed(items, (n - 1) as nat);
    }
}

/// The values of the first `n` entries are well formed exactly when each of
/// them is.
pub proof fn lemma_values_well_formed(entries: Seq<(Seq<char>, JsonView)>, n: nat)
    requires
        n <= entries.len(),
    ensures
        values_well_formed(entries, n) <==> forall|i: int|
            0 <= i < n ==> (#[trigger] entries[i]).1.well_formed(),
    decreases n,
{
    if n > 0 {
        lemma_values_well_formed(entries, (n - 1) as nat);
    }
}

/// An array stands for the values of its items.
pub proof fn lemma_array_view(items: Vec<Json>)
    ensures
        Json::Array(items)@ == JsonView::Array(items_view(items@)),
{
    assert(Json::Array(items)@->Array_0 =~= items_view(items@));
}

/// An object stands for the keys and values of its entries.
pub proof fn lemma_object_view(entries: Vec<(String, Json)>)
    ensures
        Json::Object(entries)@ == JsonView::Object(entries_view(entries@)),
{
    assert(Json::Object(entries)@->Object_0 =~= entries_view(entries@));
}

/// `key_index` stays within the entries, finds the key where it stops early,
/// and passes no entry that has the key.
pub proof fn lemma_key_index(entries: Seq<(Seq<char>, JsonView)>, key: Seq<char>)
    ensures
        0 <= key_index(entries, key) <= entries.len(),
        key_index(entries, key) < entries.len() ==> entries[key_index(entries, key)].0 == key,
        forall|i: int| 0 <= i < key_index(entries, key) ==> (#[trigger] entries[i]).0 != key,
        has_key(entries, key) <==> key_index(entries, key) < entries.len(),
    decreases entries.len(),
{
    if entries.len() == 0 || entries[0].0 == key {
    } else {
        let rest = entries.drop_first();
        lemma_key_index(rest, key);
        assert forall|i: int| 0 <= i < key_index(entries, key) implies (#[trigger] entries[i]).0
            != key by {
            if i > 0 {
                assert(entries[i] == rest[i - 1]);
            }
        }
        if key_index(entries, key) < entries.len() {
            assert(entries[key_index(entries, key)] == rest[key_index(rest, key)]);
        }
        if has_key(entries, key) {
            let i = choose|i: int| 0 <= i < entries.len() && #[trigger] entries[i].0 == key;
            assert(rest[i - 1].0 == key);
        }
    }
}

impl Clone for Json {
    #[verifier::loop_isolation(false)]
    fn clone(&self) -> (r: Json)
        ensures
            r@ == self@,
        decreases self,
    {
        match self {
            Json::Null => Json::Null,
            Json::Bool(b) => Json::Bool(*b),
            Json::UInt(n) => Json::UInt(*n),
            Json::Int(n) => Json::Int(*n),
            Json::Str(s) => Json::Str(s.clone()),
            Json::Array(items) => {
                let mut out: Vec<Json> = Vec::with_capacity(items.len());
                let mut i: usize = 0;
                while i < items.len()
                    invariant
                        i <= items.len(),
                        out@.len() == i,
                        forall|j: int| 0 <= j < i ==> (#[trigger] out@[j])@ == items@[j]@,
                    decreases items.len() - i,
                {
                    let item = items[i].clone();
                    out.push(item);
                    i += 1;
                }
                proof {
                    lemma_array_view(out);
                    lemma_array_view(*items);
                    assert(items_view(out@) =~= items_view(items@));
                }
                Json::Array(out)
            },
            Json::Object(entries) => {
                let mut out: Vec<(String, Json)> = Vec::with_capacity(entries.len());
                let mut i: usize = 0;
                while i < entries.len()
                    invariant
                        i <= entries.len(),
                        out@.len() == i,
                        forall|j: int|
                            0 <= j < i ==> (#[trigger] out@[j]).0@ == entries@[j].0@ && out@[j].1@
                                == entries@[j].1@,
                    decreases entries.len() - i,
                {
                    let key = entries[i].0.clone();
                    let value = entries[i].1.clone();
                    out.push((key, value));
                    i += 1;
                }
                proof {
                    lemma_object_view(out);
                    lemma_object_view(*entries);
                    assert(entries_view(out@) =~= entries_view(entries@));
                }
                Json::Object(out)
            },
        }
    }
}

impl Json {
    /// Whether every object inside the value names each key once.
    #[verifier::loop_isolation(false)]
    pub fn is_well_formed(&self) -> (r: bool)
        ensures
            r == self@.well_formed(),
        decreases self,
    {
        match self {
            Json::Array(items) => {
                let ghost views = items_view(items@);
                proof {
                    lemma_array_view(*items);
                }
                let mut i: usize = 0;
                while i < items.len()
                    invariant
                        i <= items.len(),
                        items_well_formed(views, i as nat),
                    decreases items.len() - i,
                {
                    if !items[i].is_well_formed() {
                        proof {
                            lemma_items_well_formed(views, views.len());
                            assert(!views[i as int].well_formed());
                        }
                        return false;
                    }
                    assert(views[i as int] == items@[i as int]@);
                    i += 1;
                }
                true
            },
            Json::Object(entries) => {
                let ghost views = entries_view(entries@);
                proof {
                    lemma_object_view(*entries);
                }
                let mut i: usize = 0;
                while i < entries.len()
                    invariant
                        i <= entries.len(),
                        values_well_formed(views, i as nat),
                        forall|a: int, b: int| 0 <= a < b < i ==> views[a].0 != views[b].0,
                    decreases entries.len() - i,
                {
                    if !entries[i].1.is_well_formed() {
                        proof {
                            lemma_values_well_formed(views, views.len());
                            assert(!views[i as int].1.well_formed());
                        }
                        return false;
                    }
                    let mut k: usize = 0;
                    while k < i
                        invariant
                            k <= i < entries.len(),
                            forall|a: int| 0 <= a < k ==> views[a].0 != views[i as int].0,
                        decreases i - k,
                    {
                        if entries[k].0 == entries[i].0 {
                            assert(views[k as int].0 == views[i as int].0);
                            return false;
                        }
                        k += 1;
                    }
                    assert(views[i as int] == (entries@[i as int].0@, entries@[i as int].1@));
                    i += 1;
                }
                true
            },
            _ => true,
        }
    }
}

/// `key_index` is the one place that has the key, or the end, and no entry
/// with the key before it.
pub proof fn lemma_key_index_unique(entries: Seq<(Seq<char>, JsonView)>, key: Seq<char>, at: int)
    requires
        0 <= at <= entries.len(),
        at < entries.len() ==> entries[at].0 == key,
        forall|i: int| 0 <= i < at ==> (#[trigger] entries[i]).0 != key,
    ensures
        key_index(entries, key) == at,
{
    lemma_key_index(entries, key);
    let found = key_index(entries, key);
    if found < at {
        assert(entries[found].0 != key);
    } else if at < found {
        assert(entries[at].0 != key);
    }
}

/// The place of the first entry with this key, or the number of entries where
/// none has it.
pub fn find_key(entries: &Vec<(String, Json)>, key: &String) -> (r: usize)
    ensures
        r == key_index(entries_view(entries@), key@),
        r <= entries@.len(),
{
    let ghost views = entries_view(entries@);
    let mut i: usize = 0;
    while i < entries.len() && !(entries[i].0 == *key)
        invariant
            i <= entries.len(),
            views == entries_view(entries@),
            forall|j: int| 0 <= j < i ==> (#[trigger] views[j]).0 != key@,
        decreases entries.len() - i,
    {
        i += 1;
    }
    proof {
        lemma_key_index_unique(views, key@, i as int);
    }
    i
}

} // verus!
