use skald::json::{
    array_of_texts, array_text, parse_json, text_entries, text_items, text_list, write_json,
    write_pretty, Json, ObjectBuilder,
};

#[test]
fn reads_fields_of_an_object() {
    let j = parse_json("{\"a\": \"x\", \"n\": 12, \"b\": true, \"neg\": -3}").unwrap();
    assert_eq!(j.text_field("a"), Some("x".to_string()));
    assert_eq!(j.text_field("n"), None);
    assert_eq!(j.u64_field("n"), Some(12));
    assert_eq!(j.i64_field("neg"), Some(-3));
    assert_eq!(j.u64_field("neg"), None);
    assert_eq!(j.bool_field("b"), Some(true));
    assert!(parse_json("{oops").is_none());
}

#[test]
fn whitespace_is_not_json() {
    assert!(parse_json("").is_none());
    assert!(parse_json(" \n\t").is_none());
    assert!(parse_json("\u{a0}1").is_none());
    assert!(matches!(parse_json(" null "), Some(Json::Null)));
}

#[test]
fn fractions_are_not_integers() {
    let j = parse_json("{\"f\": 1.5, \"e\": 1e3, \"big\": 18446744073709551615}").unwrap();
    assert_eq!(j.u64_field("f"), None);
    assert_eq!(j.i64_field("e"), None);
    assert_eq!(j.u64_field("big"), Some(u64::MAX));
    assert_eq!(j.i64_field("big"), None);
}

#[test]
fn the_last_of_two_equal_names_counts() {
    let j = parse_json("{\"a\": 1, \"a\": 2}").unwrap();
    assert_eq!(j.i64_field("a"), Some(2));
}

#[test]
fn arrays_are_read_by_index() {
    let j = parse_json("{\"list\": [\"x\", 3, null, \"y\"]}").unwrap();
    let list = j.get("list").unwrap();
    assert_eq!(list.item(0).unwrap().as_text().unwrap(), "x");
    assert_eq!(list.item(1).unwrap().as_i64(), Some(3));
    assert!(list.item(4).is_none());
    assert_eq!(text_items(list), Some(vec!["x".to_string(), "y".to_string()]));
    assert_eq!(text_list(list), None);
    assert_eq!(text_items(&j), None);
}

#[test]
fn arrays_of_texts_read_back() {
    let v = vec!["a".to_string(), "\"b\"\\".to_string(), "ü\u{1}".to_string()];
    let t = array_text(&v);
    assert_eq!(t, "[\"a\",\"\\\"b\\\"\\\\\",\"ü\\u0001\"]");
    assert_eq!(text_list(&parse_json(&t).unwrap()), Some(v.clone()));
    assert_eq!(write_pretty(&array_of_texts(&Vec::new())), "[]");
}

#[test]
fn objects_of_texts_read_back() {
    let j = ObjectBuilder::new().with_text("b", "2").with_text("a", "1").with_text("b", "3").build();
    let t = write_json(&j);
    assert_eq!(t, "{\"a\":\"1\",\"b\":\"3\"}");
    let back = parse_json(&t).unwrap();
    assert_eq!(
        text_entries(&back),
        Some(vec![("a".to_string(), "1".to_string()), ("b".to_string(), "3".to_string())])
    );
    assert_eq!(text_entries(&parse_json("{\"a\": 1}").unwrap()), None);
}

#[test]
fn writes_every_kind_of_value() {
    let j = ObjectBuilder::new()
        .with_i64("n", -7)
        .with_opt_i64("m", None)
        .with_bool("t", true)
        .with_opt_text("o", &None)
        .build();
    assert_eq!(write_json(&j), "{\"m\":null,\"n\":-7,\"o\":null,\"t\":true}");
    assert_eq!(
        write_pretty(&parse_json("{\"a\":[1,{}]}").unwrap()),
        "{\n  \"a\": [\n    1,\n    {}\n  ]\n}"
    );
}
