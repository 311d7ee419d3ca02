use rope::json::{parse, write_pretty, Json};

#[test]
fn values_are_read_and_written_back() {
    for text in [
        "null",
        "true",
        "0",
        "-3",
        "18446744073709551615",
        "1.5",
        "\"a\\n\\\"b\"",
        "[1,[],{}]",
        "{\"a\":1,\"b\":[null]}",
    ] {
        assert_eq!(rope::json::write(&parse(text).unwrap()), text);
    }
    assert_eq!(parse("{"), None);
    assert_eq!(parse("1 2"), None);
}

#[test]
fn values_are_looked_up() {
    let value = parse(r#"{"t":"x","n":3,"b":true,"a":[1],"neg":-1}"#).unwrap();
    assert_eq!(value.text_at("t").map(String::as_str), Some("x"));
    assert_eq!(value.number_at("n"), Some(3));
    assert_eq!(value.number_at("neg"), None);
    assert_eq!(value.bool_at("b"), Some(true));
    assert_eq!(value.array_at("a"), Some(&vec![Json::Unsigned(1)]));
    assert_eq!(value.get("none"), None);
    assert_eq!(Json::Null.get("t"), None);
}

#[test]
fn values_are_written_with_lines() {
    let value = parse(r#"{"a":[1]}"#).unwrap();
    assert_eq!(write_pretty(&value), "{\n  \"a\": [\n    1\n  ]\n}");
}
