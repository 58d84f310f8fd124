//! Writing a structured value as JSON text, by way of `serde_json`.

use crate::json::{
    entries_view, items_view, lemma_array_view, lemma_object_view, lemma_values_well_formed,
    lemma_items_well_formed, Json, JsonView, SerializationError,
};
use vstd::prelude::*;

verus! {

/// `serde_json::Value`, of which nothing is known but what [`value_model`]
/// says it holds.
#[verifier::external_type_specification]
#[verifier::external_body]
pub struct ExValue(serde_json::Value);

/// The structured value that a `serde_json::Value` holds: an object's entries
/// in the order in which its map walks them.
pub uninterp spec fn value_model(v: serde_json::Value) -> JsonView;

/// The text that `serde_json::to_string` writes for a value, `None` where it
/// gives an error.
pub uninterp spec fn json_text(v: JsonView) -> Option<Seq<char>>;

/// What each of the values holds, one by one.
pub open spec fn item_models(items: Seq<serde_json::Value>) -> Seq<JsonView> {
    Seq::new(items.len(), |i: int| value_model(items[i]))
}

/// The key of each entry and what its value holds, one by one.
pub open spec fn entry_models(entries: Seq<(String, serde_json::Value)>) -> Seq<
    (Seq<char>, JsonView),
> {
    Seq::new(entries.len(), |i: int| (entries[i].0@, value_model(entries[i].1)))
}

/// No two of the entries have one key.
pub open spec fn distinct_entry_keys(entries: Seq<(String, serde_json::Value)>) -> bool {
    forall|i: int, j: int| 0 <= i < j < entries.len() ==> entries[i].0@ != entries[j].0@
}

/// `serde_json::Value::Null`: the value that holds null.
#[verifier::external_body]
fn value_null() -> (r: serde_json::Value)
    ensures
        value_model(r) == JsonView::Null,
{
    serde_json::Value::Null
}

/// `serde_json::Value::Bool`: the value that holds this boolean.
#[verifier::external_body]
fn value_bool(b: bool) -> (r: serde_json::Value)
    ensures
        value_model(r) == JsonView::Bool(b),
{
    serde_json::Value::Bool(b)
}

/// `serde_json::Value::from` on a `u64`: the value that holds this number.
#[verifier::external_body]
fn value_unsigned(n: u64) -> (r: serde_json::Value)
    ensures
        value_model(r) == JsonView::Number(n as int),
{
    serde_json::Value::from(n)
}

/// `serde_json::Value::from` on an `i64`: the value that holds this number.
/// A number that is not negative is kept as the same number made from a `u64`.
#[verifier::external_body]
fn value_signed(n: i64) -> (r: serde_json::Value)
    ensures
        value_model(r) == JsonView::Number(n as int),
{
    serde_json::Value::from(n)
}

/// `serde_json::Value::String`: the value that holds this string.
#[verifier::external_body]
fn value_string(s: String) -> (r: serde_json::Value)
    ensures
        value_model(r) == JsonView::Str(s@),
{
    serde_json::Value::String(s)
}

/// `serde_json::Value::Array`: the value that holds these items in their
/// order.
#[verifier::external_body]
fn value_array(items: Vec<serde_json::Value>) -> (r: serde_json::Value)
    ensures
        value_model(r) == JsonView::Array(item_models(items@)),
{
    serde_json::Value::Array(items)
}

/// `serde_json::Value::Object` over a `serde_json::Map` collected from the
/// entries. The map keeps entries in the order of insertion (the crate is
/// built with `preserve_order`), and with no key twice each entry is a new
/// one, so the value holds the entries in their order.
#[verifier::external_body]
fn value_object(entries: Vec<(String, serde_json::Value)>) -> (r: serde_json::Value)
    requires
        distinct_entry_keys(entries@),
    ensures
        value_model(r) == JsonView::Object(entry_models(entries@)),
{
    serde_json::Value::Object(entries.into_iter().collect())
}

/// `serde_json::to_string` on a value: the text is that of what the value
/// holds, and there is a text exactly when the call gives one.
#[verifier::external_body]
fn value_text(v: &serde_json::Value) -> (r: Option<String>)
    ensures
        r matches Some(t) ==> json_text(value_model(*v)) == Some(t@),
        r is None ==> json_text(value_model(*v)) is None,
{
    serde_json::to_string(v).ok()
}

/// Builds the `serde_json` value that holds what `v` stands for.
#[verifier::loop_isolation(false)]
fn to_value(v: &Json) -> (r: serde_json::Value)
    requires
        v@.well_formed(),
    ensures
        value_model(r) == v@,
    decreases v,
{
    match v {
        Json::Null => value_null(),
        Json::Bool(b) => value_bool(*b),
        Json::UInt(n) => value_unsigned(*n),
        Json::Int(n) => value_signed(*n),
        Json::Str(s) => value_string(s.clone()),
        Json::Array(items) => {
            let ghost views = items_view(items@);
            proof {
                lemma_array_view(*items);
                lemma_items_well_formed(views, views.len());
            }
            let mut out: Vec<serde_json::Value> = Vec::with_capacity(items.len());
            let mut i: usize = 0;
            while i < items.len()
                invariant
                    i <= items.len(),
                    item_models(out@) == views.take(i as int),
                decreases items.len() - i,
            {
                assert(views[i as int].well_formed());
                let item = to_value(&items[i]);
                proof {
                    assert(item_models(out@.push(item)) =~= views.take(i + 1));
                }
                out.push(item);
                i += 1;
            }
            proof {
                assert(views.take(i as int) =~= views);
            }
            value_array(out)
        },
        Json::Object(entries) => {
            let ghost views = entries_view(entries@);
            proof {
                lemma_object_view(*entries);
                lemma_values_well_formed(views, views.len());
            }
            let mut out: Vec<(String, serde_json::Value)> = Vec::with_capacity(entries.len());
            let mut i: usize = 0;
            while i < entries.len()
                invariant
                    i <= entries.len(),
                    entry_models(out@) == views.take(i as int),
                decreases entries.len() - i,
            {
                assert(views[i as int].1.well_formed());
                let key = entries[i].0.clone();
                let value = to_value(&entries[i].1);
                proof {
                    assert(entry_models(out@.push((key, value))) =~= views.take(i + 1));
                }
                out.push((key, value));
                i += 1;
            }
            proof {
                assert(views.take(i as int) =~= views);
                assert forall|a: int, b: int| 0 <= a < b < out@.len() implies out@[a].0@
                    != out@[b].0@ by {
                    assert(entry_models(out@)[a] == views[a]);
                    assert(entry_models(out@)[b] == views[b]);
                }
            }
            value_object(out)
        },
    }
}

/// The text of a value, or why it has none.
pub open spec fn text_of(v: JsonView) -> Result<Seq<char>, SerializationError> {
    if !v.well_formed() {
        Err(SerializationError::DuplicateKey)
    } else {
        match json_text(v) {
            Some(text) => Ok(text),
            None => Err(SerializationError::Encoding),
        }
    }
}

/// Writes a well-formed value as JSON text.
pub(crate) fn well_formed_to_text(v: &Json) -> (r: Result<String, SerializationError>)
    requires
        v@.well_formed(),
    ensures
        r matches Ok(text) ==> text_of(v@) == Ok::<Seq<char>, SerializationError>(text@),
        r matches Err(e) ==> text_of(v@) == Err::<Seq<char>, SerializationError>(e),
{
    let value = to_value(v);
    match value_text(&value) {
        Some(text) => Ok(text),
        None => Err(SerializationError::Encoding),
    }
}

/// Writes a value as JSON text, the entries of each object in the order in
/// which they stand. A value in which an object holds a key twice has no text.
pub fn to_text(v: &Json) -> (r: Result<String, SerializationError>)
    ensures
        r matches Ok(text) ==> text_of(v@) == Ok::<Seq<char>, SerializationError>(text@),
        r matches Err(e) ==> text_of(v@) == Err::<Seq<char>, SerializationError>(e),
{
    if v.is_well_formed() {
        well_formed_to_text(v)
    } else {
        Err(SerializationError::DuplicateKey)
    }
}

} // verus!
