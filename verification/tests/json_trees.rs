use stepfn_core::fields::entry;
use stepfn_core::json::{Json, JsonNumber};
use stepfn_core::list::{texts_from, texts_to_json};
use stepfn_core::error::TranslateError;

fn text(s: &str) -> Json {
    Json::Text(s.to_string())
}

#[test]
fn a_text_is_read_into_a_tree() {
    let tree = Json::from_text(r#" {"b": [1, -2, 2.5, 1e3, true, null, "x"], "a": {}} "#).unwrap();
    assert_eq!(
        tree,
        Json::Object(vec![
            ("a".to_string(), Json::Object(vec![])),
            (
                "b".to_string(),
                Json::Array(vec![
                    Json::Number(JsonNumber::Unsigned(1)),
                    Json::Number(JsonNumber::Negative(-2)),
                    Json::Number(JsonNumber::Real("2.5".to_string())),
                    Json::Number(JsonNumber::Real("1000.0".to_string())),
                    Json::Bool(true),
                    Json::Null,
                    text("x"),
                ])
            ),
        ])
    );
}

#[test]
fn a_tree_is_written_as_text() {
    let tree = Json::Object(vec![
        ("b".to_string(), Json::Array(vec![Json::Null, Json::Bool(false), text("a\"b")])),
        ("a".to_string(), Json::Number(JsonNumber::Real("1699612567.763".to_string()))),
        ("c".to_string(), Json::Number(JsonNumber::Negative(-7))),
    ]);
    assert_eq!(
        tree.to_text().unwrap(),
        r#"{"a":1699612567.763,"b":[null,false,"a\"b"],"c":-7}"#
    );
    assert_eq!(Json::Null.to_text().unwrap(), "null");
    assert_eq!(Json::Number(JsonNumber::Unsigned(u64::MAX)).to_text().unwrap(), "18446744073709551615");
}

#[test]
fn text_and_tree_round_trip() {
    let written = r#"{"a":[1,-2,2.5,{"b":null}],"c":"d"}"#;
    let tree = Json::from_text(written).unwrap();
    assert_eq!(tree.to_text().unwrap(), written);
}

#[test]
fn a_number_that_is_none_cannot_be_written() {
    assert_eq!(Json::Number(JsonNumber::Real("abc".to_string())).to_text(), None);
    assert_eq!(Json::Array(vec![Json::Number(JsonNumber::Real(String::new()))]).to_text(), None);
    assert_eq!(
        Json::Object(vec![("a".to_string(), Json::Number(JsonNumber::Real("1e".to_string())))])
            .to_text(),
        None
    );
}

#[test]
fn a_text_that_is_no_json_gives_the_message() {
    let message = Json::from_text("{").unwrap_err();
    assert!(message.contains("line 1"), "{}", message);
    assert!(Json::from_text("").is_err());
    assert!(Json::from_text("{\"a\":1,}").is_err());
}

#[test]
fn a_key_that_occurs_twice_in_a_text_counts_once() {
    let tree = Json::from_text(r#"{"a":1,"a":2}"#).unwrap();
    assert_eq!(tree, Json::Object(vec![("a".to_string(), Json::Number(JsonNumber::Unsigned(2)))]));
}

#[test]
fn the_last_member_with_a_key_is_the_one_that_is_found() {
    let tree = Json::Object(vec![
        ("a".to_string(), text("first")),
        ("b".to_string(), Json::Null),
        ("a".to_string(), text("last")),
    ]);
    assert_eq!(tree.get("a"), Some(&text("last")));
    assert_eq!(tree.get("b"), Some(&Json::Null));
    assert_eq!(tree.get("c"), None);
    assert_eq!(tree.optional_member("b"), None);
    assert_eq!(tree.optional_member("a"), Some(&text("last")));
    assert_eq!(tree.to_text().unwrap(), r#"{"a":"last","b":null}"#);
}

#[test]
fn what_is_no_object_has_no_members() {
    for tree in [Json::Null, Json::Bool(true), text("a"), Json::Array(vec![text("a")])] {
        assert_eq!(tree.get("a"), None);
        assert_eq!(
            tree.text_member("T", "a"),
            Err(TranslateError::SchemaError { object: "T".to_string(), field: "a".to_string() })
        );
    }
}

#[test]
fn typed_members() {
    let tree = Json::from_text(
        r#"{"s":"x","b":false,"n":65535,"big":65536,"neg":-1,"list":[1],"null":null}"#,
    )
    .unwrap();
    let refused =
        |key: &str| TranslateError::SchemaError { object: "T".to_string(), field: key.to_string() };
    assert_eq!(tree.text_member("T", "s"), Ok("x".to_string()));
    assert_eq!(tree.text_member("T", "b"), Err(refused("b")));
    assert_eq!(tree.text_member("T", "null"), Err(refused("null")));
    assert_eq!(tree.text_member("T", "none"), Err(refused("none")));
    assert_eq!(tree.optional_text_member("T", "s"), Ok(Some("x".to_string())));
    assert_eq!(tree.optional_text_member("T", "null"), Ok(None));
    assert_eq!(tree.optional_text_member("T", "none"), Ok(None));
    assert_eq!(tree.optional_text_member("T", "n"), Err(refused("n")));
    assert_eq!(tree.optional_bool_member("T", "b"), Ok(Some(false)));
    assert_eq!(tree.optional_bool_member("T", "none"), Ok(None));
    assert_eq!(tree.optional_bool_member("T", "s"), Err(refused("s")));
    assert_eq!(tree.u64_member("T", "n"), Ok(65535));
    assert_eq!(tree.u64_member("T", "neg"), Err(refused("neg")));
    assert_eq!(tree.u64_member("T", "none"), Err(refused("none")));
    assert_eq!(tree.optional_u64_member("T", "n"), Ok(Some(65535)));
    assert_eq!(tree.optional_u64_member("T", "big"), Ok(Some(65536)));
    assert_eq!(tree.optional_u64_member("T", "neg"), Err(refused("neg")));
    assert_eq!(tree.optional_u64_member("T", "s"), Err(refused("s")));
    assert_eq!(tree.optional_u64_member("T", "null"), Ok(None));
    assert_eq!(tree.optional_u64_member("T", "none"), Ok(None));
    assert_eq!(tree.array_member("T", "list").map(|items| items.len()), Ok(1));
    assert_eq!(tree.array_member("T", "s").map(|items| items.len()), Err(refused("s")));
    assert_eq!(tree.optional_array_member("T", "null").map(|o| o.is_some()), Ok(false));
    assert_eq!(tree.optional_array_member("T", "list").map(|o| o.is_some()), Ok(true));
    assert_eq!(tree.optional_array_member("T", "n").map(|o| o.is_some()), Err(refused("n")));
}

#[test]
fn values_for_writing() {
    assert_eq!(Json::text(&"a".to_string()), text("a"));
    assert_eq!(Json::optional_text(&Some("a".to_string())), text("a"));
    assert_eq!(Json::optional_text(&None), Json::Null);
    assert_eq!(Json::optional_bool(&Some(true)), Json::Bool(true));
    assert_eq!(Json::optional_bool(&None), Json::Null);
    assert_eq!(entry("k", Json::Null), ("k".to_string(), Json::Null));
}

#[test]
fn a_copy_is_equal_to_the_tree() {
    let tree = Json::from_text(r#"{"a":[1,-2,2.5,{"b":null}],"c":"d"}"#).unwrap();
    assert_eq!(tree.duplicate(), tree);
    assert_eq!(JsonNumber::Real("1.5".to_string()).duplicate(), JsonNumber::Real("1.5".to_string()));
}

#[test]
fn lists_of_strings() {
    let items = vec![text("a"), text("b"), text("a")];
    let read = texts_from(&items, "T", "k").unwrap();
    assert_eq!(read, vec!["a".to_string(), "b".to_string(), "a".to_string()]);
    assert_eq!(texts_to_json(&read), items);
    assert_eq!(
        texts_from(&vec![text("a"), Json::Null], "T", "k"),
        Err(TranslateError::SchemaError { object: "T".to_string(), field: "k".to_string() })
    );
}
