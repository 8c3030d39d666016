use kv_explorer::json::{Json, JsonMember, JsonNumber};

fn member(name: &str, value: Json) -> JsonMember {
    JsonMember { name: name.to_string(), value }
}

#[test]
fn parse_object_with_number() {
    let parsed = Json::from_text("{\"x\":1}");
    assert_eq!(
        parsed,
        Some(Json::Object(vec![member("x", Json::Number(JsonNumber::PosInt(1)))]))
    );
}

#[test]
fn parse_rejects_plain_word() {
    assert_eq!(Json::from_text("hello"), None);
}

#[test]
fn parse_rejects_trailing_text() {
    assert_eq!(Json::from_text("{} x"), None);
    assert_eq!(Json::from_bytes(b"[1,2"), None);
}

#[test]
fn parse_tells_numbers_apart() {
    let parsed = Json::from_text("[0, 18446744073709551615, -1, -9223372036854775808, 1.5]");
    assert_eq!(
        parsed,
        Some(Json::Array(vec![
            Json::Number(JsonNumber::PosInt(0)),
            Json::Number(JsonNumber::PosInt(u64::MAX)),
            Json::Number(JsonNumber::NegInt(-1)),
            Json::Number(JsonNumber::NegInt(i64::MIN)),
            Json::Number(JsonNumber::Float("1.5".to_string())),
        ]))
    );
}

#[test]
fn parse_scalars() {
    assert_eq!(Json::from_text("null"), Some(Json::Null));
    assert_eq!(Json::from_text("true"), Some(Json::Bool(true)));
    assert_eq!(
        Json::from_text("\"a\\nb\""),
        Some(Json::Text("a\nb".to_string()))
    );
}

#[test]
fn parse_bytes_and_text_agree() {
    let text = "{\"k\":[\"\u{e9}\", {\"n\":null}]}";
    assert_eq!(Json::from_bytes(text.as_bytes()), Json::from_text(text));
    assert!(Json::from_text(text).is_some());
}

#[test]
fn print_is_compact_and_sorted() {
    let parsed = Json::from_text("{ \"b\" : [1, -2, 1.5], \"a\" : null }").unwrap();
    assert_eq!(parsed.to_text(), "{\"a\":null,\"b\":[1,-2,1.5]}");
}

#[test]
fn print_escapes_strings() {
    let value = Json::Array(vec![Json::Text("a\"b".to_string()), Json::Bool(false)]);
    assert_eq!(value.to_text(), "[\"a\\\"b\",false]");
}

#[test]
fn print_then_parse_gives_the_value_back() {
    let value = Json::Object(vec![
        member("list", Json::Array(vec![Json::Number(JsonNumber::NegInt(-7)), Json::Null])),
        member("name", Json::Text("x".to_string())),
    ]);
    assert_eq!(Json::from_text(&value.to_text()), Some(value));
}

#[test]
fn member_lookup() {
    let value = Json::from_text("{\"a\":1,\"b\":{\"c\":\"d\"}}").unwrap();
    assert_eq!(value.member("a"), Some(&Json::Number(JsonNumber::PosInt(1))));
    assert_eq!(
        value.member("b").and_then(|b| b.member("c")),
        Some(&Json::Text("d".to_string()))
    );
    assert_eq!(value.member("z"), None);
    assert_eq!(Json::Null.member("a"), None);
}

#[test]
fn accessors_by_kind() {
    let list = Json::from_text("[true, \"s\", 5, -5, 9223372036854775808]").unwrap();
    let items = list.elements().unwrap();
    assert_eq!(items[0].truth(), Some(true));
    assert_eq!(items[1].text(), Some(&"s".to_string()));
    assert_eq!(items[2].unsigned(), Some(5));
    assert_eq!(items[2].signed(), Some(5));
    assert_eq!(items[3].unsigned(), None);
    assert_eq!(items[3].signed(), Some(-5));
    assert_eq!(items[4].unsigned(), Some(9223372036854775808));
    assert_eq!(items[4].signed(), None);
    assert_eq!(items[0].elements(), None);
    assert!(Json::Null.is_null());
    assert!(!items[0].is_null());
}

#[test]
fn duplicate_is_equal() {
    let value = Json::from_text("{\"a\":[1,{\"b\":2.25}],\"c\":\"d\"}").unwrap();
    assert_eq!(value.duplicate(), value);
    assert_eq!(value.clone(), value);
}

#[test]
fn print_of_a_number_text_that_is_no_number_is_null() {
    let value = Json::Array(vec![
        Json::Number(JsonNumber::Float("2.5e3".to_string())),
        Json::Number(JsonNumber::Float("\"x\"".to_string())),
        Json::Number(JsonNumber::Float("abc".to_string())),
    ]);
    assert_eq!(value.to_text(), "[2500.0,null,null]");
}
