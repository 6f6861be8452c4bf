use bunyan_view::value::{compact_string, JsonValue};
use bunyan_view::render::push_render_value;
use bunyan_view::outside::parse_json_line;

fn obj(entries: Vec<(&str, JsonValue)>) -> JsonValue {
    JsonValue::Obj(entries.into_iter().map(|(k, v)| (String::from(k), v)).collect())
}

fn render(v: &JsonValue, indent: usize) -> String {
    let mut out = String::new();
    push_render_value(&mut out, v, indent);
    out
}

#[test]
fn scalars_render_in_their_natural_form() {
    assert_eq!(render(&JsonValue::Null, 0), "null");
    assert_eq!(render(&JsonValue::Bool(true), 0), "true");
    assert_eq!(render(&JsonValue::Num(String::from("3.5")), 0), "3.5");
    assert_eq!(render(&JsonValue::Str(String::from("hi")), 0), "\"hi\"");
}

#[test]
fn empty_containers_render_inline() {
    assert_eq!(render(&obj(vec![]), 4), "{}");
    assert_eq!(render(&JsonValue::Arr(vec![]), 4), "[]");
}

#[test]
fn nested_values_indent_two_columns_per_level() {
    let v = obj(vec![
        ("a", JsonValue::Num(String::from("1"))),
        ("b", JsonValue::Arr(vec![
            JsonValue::Num(String::from("2")),
            obj(vec![("c", JsonValue::Null)]),
        ])),
    ]);
    let expected = "{\n  \"a\": 1,\n  \"b\": [\n    2,\n    {\n      \"c\": null\n    }\n  ]\n}";
    assert_eq!(render(&v, 0), expected);
}

#[test]
fn compact_text_matches_json() {
    let v = obj(vec![
        ("a", JsonValue::Str(String::from("x y"))),
        ("b", JsonValue::Arr(vec![JsonValue::Bool(false), JsonValue::Null])),
    ]);
    assert_eq!(compact_string(&v), "{\"a\":\"x y\",\"b\":[false,null]}");
}

#[test]
fn compact_escapes_quotes_and_controls() {
    let v = JsonValue::Str(String::from("a\"b\\c\nd\te\u{1}f"));
    assert_eq!(compact_string(&v), "\"a\\\"b\\\\c\\nd\\te\\u0001f\"");
}

#[test]
fn rendered_value_reparses_to_the_same_value() {
    let v = obj(vec![
        ("a", JsonValue::Arr(vec![
            JsonValue::Num(String::from("1")),
            JsonValue::Str(String::from("x y")),
            JsonValue::Null,
            JsonValue::Bool(true),
        ])),
        ("b", obj(vec![("c", obj(vec![]))])),
        ("d", JsonValue::Str(String::from("line1\nline2"))),
    ]);
    let text = render(&v, 0);
    match parse_json_line(&text) {
        Ok(back) => assert_eq!(back, v),
        Err(e) => panic!("re-parse failed: {}", e.msg),
    }
}

#[test]
fn compact_text_reparses_to_the_same_value() {
    let v = JsonValue::Arr(vec![
        obj(vec![("k", JsonValue::Num(String::from("-2.5")))]),
        JsonValue::Str(String::from("\u{7}\u{1f}")),
        JsonValue::Arr(vec![]),
    ]);
    let text = compact_string(&v);
    match parse_json_line(&text) {
        Ok(back) => assert_eq!(back, v),
        Err(e) => panic!("re-parse failed: {}", e.msg),
    }
}
