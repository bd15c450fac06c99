use kaku::json::{
    as_text, as_text_or, as_text_or_empty, integer, into_member, is_true, member, parse, render,
    string, texts, within, Json,
};

#[test]
fn json_is_read_and_taken_apart() {
    let value = parse(r#"{"b":[1,"x",null,"y"],"a":{"t":true,"f":false,"s":" q "}}"#).expect("json");
    assert_eq!(texts(member(&value, "b")), vec!["x".to_string(), "y".to_string()]);
    let inner = member(&value, "a");
    assert!(is_true(within(inner, "t")));
    assert!(!is_true(within(inner, "f")));
    assert!(!is_true(within(inner, "s")));
    assert_eq!(as_text(within(inner, "s")), Some(" q "));
    assert_eq!(as_text(within(inner, "t")), None);
    assert_eq!(as_text_or(within(inner, "t"), "none"), "none");
    assert_eq!(as_text_or_empty(within(inner, "t")), "");
    assert!(member(&value, "c").is_none());
    assert!(within(None, "a").is_none());
    assert!(member(&string("a"), "a").is_none());
    assert_eq!(into_member(value, "c"), None);
}

#[test]
fn text_that_is_no_json_is_refused() {
    for text in ["", "{", "nope", "{\"a\":}", "{} {}"] {
        assert_eq!(parse(text), None, "{text:?}");
    }
    assert_eq!(parse("null"), Some(Json::Null));
    assert_eq!(parse(" true "), Some(Json::Bool(true)));
}

#[test]
fn numbers_and_strings_are_kept() {
    assert_eq!(parse("42"), Some(integer(42)));
    assert_eq!(parse("18446744073709551615"), Some(integer(u64::MAX)));
    assert_ne!(parse("42"), Some(integer(43)));
    assert_eq!(parse(r#""a\né""#), Some(string("a\né")));
}

#[test]
fn fields_are_walked_in_the_order_of_their_names() {
    let value = parse(r#"{"z":1,"a":2}"#).expect("json");
    assert_eq!(
        value,
        Json::Object(vec![("a".to_string(), integer(2)), ("z".to_string(), integer(1))])
    );
}

#[test]
fn values_are_printed_compactly() {
    let field = |name: &str, value| (name.to_string(), value);
    let value = Json::Object(vec![
        field("z", Json::Array(vec![Json::Null, Json::Bool(true), integer(7)])),
        field("a", string("q\"\n")),
    ]);
    assert_eq!(render(value), r#"{"a":"q\"\n","z":[null,true,7]}"#);
    assert_eq!(parse(&render(string("é"))), Some(string("é")));
}
