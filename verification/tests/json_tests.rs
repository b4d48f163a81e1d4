use sammy::json::JsonValue;
use sammy::json::pruned_object_string;
use sammy::json::to_json_string;

fn s(x: &str) -> String {
    x.to_string()
}

#[test]
fn serializes_scalars() {
    assert_eq!(to_json_string(&JsonValue::Null), "null");
    assert_eq!(to_json_string(&JsonValue::Bool(true)), "true");
    assert_eq!(to_json_string(&JsonValue::Bool(false)), "false");
    assert_eq!(to_json_string(&JsonValue::Number(s("-113.18"))), "-113.18");
    assert_eq!(to_json_string(&JsonValue::String(s("Off"))), "\"Off\"");
}

#[test]
fn serializes_nested_structures() {
    let v = JsonValue::Object(vec![
        (s("gps"), JsonValue::Object(vec![(s("latitude"), JsonValue::Number(s("53.7")))])),
        (s("tags"), JsonValue::Array(vec![
            JsonValue::String(s("a")),
            JsonValue::Number(s("2")),
            JsonValue::Null,
        ])),
        (s("empty"), JsonValue::Object(vec![])),
        (s("none"), JsonValue::Array(vec![])),
    ]);
    assert_eq!(
        to_json_string(&v),
        "{\"gps\":{\"latitude\":53.7},\"tags\":[\"a\",2,null],\"empty\":{},\"none\":[]}"
    );
}

#[test]
fn escapes_string_content() {
    let v = JsonValue::String(s("a\"b\\c\nd\te\u{1}f"));
    assert_eq!(to_json_string(&v), "\"a\\\"b\\\\c\\nd\\te\\u0001f\"");
    let keyed = JsonValue::Object(vec![(s("we\"ird"), JsonValue::Bool(false))]);
    assert_eq!(to_json_string(&keyed), "{\"we\\\"ird\":false}");
}

#[test]
fn keeps_unicode_content_as_is() {
    let v = JsonValue::String(s("Joe Martin & Sons Yard — 83 Straße"));
    assert_eq!(to_json_string(&v), "\"Joe Martin & Sons Yard — 83 Straße\"");
}

#[test]
fn pruning_removes_every_member_with_the_key() {
    let entries = vec![
        (s("time"), JsonValue::String(s("2021-07-14T02:13:53Z"))),
        (s("latitude"), JsonValue::Number(s("53.7"))),
        (s("time"), JsonValue::Null),
        (s("longitude"), JsonValue::Number(s("-113.18"))),
    ];
    assert_eq!(
        pruned_object_string(&entries, &s("time")),
        "{\"latitude\":53.7,\"longitude\":-113.18}"
    );
}

#[test]
fn pruning_an_object_of_only_the_key_leaves_it_empty() {
    let entries = vec![(s("time"), JsonValue::Null)];
    assert_eq!(pruned_object_string(&entries, &s("time")), "{}");
    let nothing: Vec<(String, JsonValue)> = vec![];
    assert_eq!(pruned_object_string(&nothing, &s("time")), "{}");
}
