use ttyd::jsonc::{read_json, set_field, to_string, Json, SpacedFormatter};

fn number(text: &str) -> Json {
    Json::Number(text.to_string())
}

fn text(text: &str) -> Json {
    Json::Text(text.to_string())
}

#[test]
fn empty_object_matches_json_c() {
    assert_eq!(to_string(&Json::Object(Vec::new())), "{ }");
}

#[test]
fn populated_object_matches_json_c() {
    let mut map = Vec::new();
    set_field(&mut map, "fontSize".into(), number("20"));
    set_field(&mut map, "titleFixed".into(), text("hi"));
    assert_eq!(
        to_string(&Json::Object(map)),
        r#"{ "fontSize": 20, "titleFixed": "hi" }"#
    );
}

#[test]
fn nested_values_match_json_c() {
    let mut map = Vec::new();
    set_field(
        &mut map,
        "theme".into(),
        Json::Object(vec![("background".into(), text("red"))]),
    );
    set_field(
        &mut map,
        "list".into(),
        Json::Array(vec![number("1"), number("2")]),
    );
    assert_eq!(
        to_string(&Json::Object(map)),
        r#"{ "theme": { "background": "red" }, "list": [ 1, 2 ] }"#
    );
}

#[test]
fn a_document_is_read_and_written_spaced() {
    let doc = read_json(r#"{"a":[],"b":{"c":null},"d":[true,false,-1.5],"a":{}}"#).unwrap();
    assert_eq!(
        to_string(&doc),
        r#"{ "a": { }, "b": { "c": null }, "d": [ true, false, -1.5 ] }"#
    );
    assert!(read_json("not json").is_none());
    assert!(read_json("{} {}").is_none());
    assert_eq!(to_string(&read_json(" 12 ").unwrap()), "12");
}

#[test]
fn strings_are_escaped_as_json_wants_it() {
    assert_eq!(
        to_string(&text("a\"b\\c\n\t\r\u{8}\u{c}\u{1f}\u{7f}é")),
        "\"a\\\"b\\\\c\\n\\t\\r\\b\\f\\u001f\u{7f}é\""
    );
}

#[test]
fn a_field_keeps_its_place_when_it_is_set_again() {
    let mut map = Vec::new();
    set_field(&mut map, "a".into(), number("1"));
    set_field(&mut map, "b".into(), number("2"));
    set_field(&mut map, "a".into(), number("3"));
    assert_eq!(to_string(&Json::Object(map)), r#"{ "a": 3, "b": 2 }"#);
}

#[test]
fn the_layout_writes_its_pieces() {
    let mut layout = SpacedFormatter::default();
    let mut out = String::new();
    layout.begin_object(&mut out);
    layout.begin_object_key(&mut out, true);
    out.push_str("\"k\"");
    layout.begin_object_value(&mut out);
    layout.begin_array(&mut out);
    layout.begin_array_value(&mut out, true);
    out.push('1');
    layout.begin_array_value(&mut out, false);
    out.push('2');
    layout.end_array(&mut out);
    layout.begin_object_key(&mut out, false);
    layout.end_object(&mut out);
    assert_eq!(out, "{ \"k\": [ 1, 2 ],  }");
}
