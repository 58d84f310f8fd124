use pacifica::canonical::{key_less, sort_json_value, to_sorted_json};
use pacifica::json::{find_key, Json, SerializationError};
use pacifica::text::to_text;

fn s(text: &str) -> String {
    text.to_string()
}

fn obj(entries: Vec<(&str, Json)>) -> Json {
    Json::Object(entries.into_iter().map(|(k, v)| (k.to_string(), v)).collect())
}

#[test]
fn keys_come_out_in_ascending_order() {
    let v = obj(vec![("b", Json::UInt(1)), ("a", Json::UInt(2))]);
    assert_eq!(to_sorted_json(&v), Ok(s("{\"a\":2,\"b\":1}")));
}

#[test]
fn permuted_keys_give_identical_text() {
    let first = obj(vec![("b", Json::UInt(1)), ("a", Json::UInt(2))]);
    let second = obj(vec![("a", Json::UInt(2)), ("b", Json::UInt(1))]);
    assert_eq!(to_sorted_json(&first), to_sorted_json(&second));
    assert_eq!(sort_json_value(&first), sort_json_value(&second));
    assert_eq!(sort_json_value(&first), second);
}

#[test]
fn permuted_keys_at_depth_give_identical_text() {
    let first = obj(vec![
        ("z", obj(vec![("y", Json::Null), ("x", Json::Bool(true))])),
        ("list", Json::Array(vec![obj(vec![("q", Json::Int(-1)), ("p", Json::UInt(7))])])),
        ("a", Json::Str(s("v"))),
    ]);
    let second = obj(vec![
        ("a", Json::Str(s("v"))),
        ("list", Json::Array(vec![obj(vec![("p", Json::UInt(7)), ("q", Json::Int(-1))])])),
        ("z", obj(vec![("x", Json::Bool(true)), ("y", Json::Null)])),
    ]);
    let expected = "{\"a\":\"v\",\"list\":[{\"p\":7,\"q\":-1}],\"z\":{\"x\":true,\"y\":null}}";
    assert_eq!(to_sorted_json(&first), Ok(s(expected)));
    assert_eq!(to_sorted_json(&second), Ok(s(expected)));
}

#[test]
fn array_order_is_preserved() {
    let v = obj(vec![("x", Json::Array(vec![Json::UInt(3), Json::UInt(1), Json::UInt(2)]))]);
    assert_eq!(to_sorted_json(&v), Ok(s("{\"x\":[3,1,2]}")));
    assert_eq!(sort_json_value(&v), v);
}

#[test]
fn array_of_strings_is_not_sorted() {
    let v = Json::Array(vec![Json::Str(s("b")), Json::Str(s("a"))]);
    assert_eq!(to_sorted_json(&v), Ok(s("[\"b\",\"a\"]")));
}

#[test]
fn scalars_pass_through_unchanged() {
    assert_eq!(sort_json_value(&Json::Null), Json::Null);
    assert_eq!(sort_json_value(&Json::Bool(false)), Json::Bool(false));
    assert_eq!(sort_json_value(&Json::UInt(u64::MAX)), Json::UInt(u64::MAX));
    assert_eq!(sort_json_value(&Json::Int(i64::MIN)), Json::Int(i64::MIN));
    assert_eq!(sort_json_value(&Json::Str(s("zeta"))), Json::Str(s("zeta")));
}

#[test]
fn scalars_are_written_as_json() {
    assert_eq!(to_text(&Json::Null), Ok(s("null")));
    assert_eq!(to_text(&Json::Bool(true)), Ok(s("true")));
    assert_eq!(to_text(&Json::Bool(false)), Ok(s("false")));
    assert_eq!(to_text(&Json::UInt(5)), Ok(s("5")));
    assert_eq!(to_text(&Json::UInt(u64::MAX)), Ok(s("18446744073709551615")));
    assert_eq!(to_text(&Json::Int(-3)), Ok(s("-3")));
    assert_eq!(to_text(&Json::Int(3)), Ok(s("3")));
    assert_eq!(to_text(&Json::Str(s("a\"b\\c\n"))), Ok(s("\"a\\\"b\\\\c\\n\"")));
}

#[test]
fn text_keeps_the_order_of_entries() {
    let v = obj(vec![("b", Json::UInt(1)), ("a", Json::UInt(2))]);
    assert_eq!(to_text(&v), Ok(s("{\"b\":1,\"a\":2}")));
}

#[test]
fn empty_object_and_array() {
    assert_eq!(to_sorted_json(&obj(vec![])), Ok(s("{}")));
    assert_eq!(to_sorted_json(&Json::Array(vec![])), Ok(s("[]")));
}

#[test]
fn duplicate_key_is_refused() {
    let v = obj(vec![("a", Json::UInt(1)), ("a", Json::UInt(2))]);
    assert_eq!(to_sorted_json(&v), Err(SerializationError::DuplicateKey));
    assert_eq!(to_text(&v), Err(SerializationError::DuplicateKey));
    assert!(!v.is_well_formed());
}

#[test]
fn duplicate_key_at_depth_is_refused() {
    let inner = obj(vec![("k", Json::Null), ("k", Json::Null)]);
    let v = obj(vec![("list", Json::Array(vec![Json::UInt(1), inner]))]);
    assert_eq!(to_sorted_json(&v), Err(SerializationError::DuplicateKey));
    assert!(!v.is_well_formed());
}

#[test]
fn well_formed_values_are_recognized() {
    let v = obj(vec![("a", obj(vec![("a", Json::Null)])), ("b", Json::Array(vec![]))]);
    assert!(v.is_well_formed());
    assert!(Json::Null.is_well_formed());
}

#[test]
fn sorting_is_stable_for_equal_keys() {
    let v = obj(vec![("b", Json::UInt(1)), ("a", Json::UInt(2)), ("a", Json::UInt(3))]);
    let sorted = obj(vec![("a", Json::UInt(2)), ("a", Json::UInt(3)), ("b", Json::UInt(1))]);
    assert_eq!(sort_json_value(&v), sorted);
}

#[test]
fn keys_are_ordered_by_bytes() {
    assert!(key_less("a", "b"));
    assert!(!key_less("b", "a"));
    assert!(!key_less("a", "a"));
    assert!(key_less("", "a"));
    assert!(!key_less("a", ""));
    assert!(key_less("a", "ab"));
    assert!(key_less("Z", "a"));
    assert!(key_less("a", "\u{e9}"));
    assert!(key_less("10", "9"));
    assert!(key_less("\u{7f}", "\u{80}"));
    assert!(key_less("\u{ffff}", "\u{10000}"));
}

#[test]
fn upper_case_keys_sort_before_lower_case() {
    let v = obj(vec![("b", Json::Null), ("B", Json::Null), ("a", Json::Null)]);
    assert_eq!(to_sorted_json(&v), Ok(s("{\"B\":null,\"a\":null,\"b\":null}")));
}

#[test]
fn canonical_form_is_a_fixed_point() {
    let v = obj(vec![("c", obj(vec![("b", Json::Null), ("a", Json::Null)])), ("a", Json::Null)]);
    let once = sort_json_value(&v);
    assert_eq!(sort_json_value(&once), once);
}

#[test]
fn clone_copies_the_whole_value() {
    let v = obj(vec![("c", Json::Array(vec![Json::Str(s("x")), Json::Int(-9)])), ("a", Json::Null)]);
    assert_eq!(v.clone(), v);
}

#[test]
fn find_key_gives_the_first_place() {
    let entries = vec![(s("a"), Json::Null), (s("b"), Json::Null), (s("a"), Json::Bool(true))];
    assert_eq!(find_key(&entries, &s("a")), 0);
    assert_eq!(find_key(&entries, &s("b")), 1);
    assert_eq!(find_key(&entries, &s("c")), 3);
}
