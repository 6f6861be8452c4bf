use bunyan_view::value::{is_multiline_string, JsonValue};

#[test]
fn multiline_verify_new_line_is_detected() {
    let multiline: JsonValue = JsonValue::Str(String::from("this\nhas\new lines"));
    assert_eq!(is_multiline_string(&multiline), true);
}

#[test]
fn multiline_verify_long_line_is_detected() {
    let repeat = 51;
    let multiline: JsonValue = JsonValue::Str(format!("{:repeat$}", "-", repeat = repeat));
    assert_eq!(is_multiline_string(&multiline), true);
}

#[test]
fn multiline_verify_no_new_line_is_detected() {
    let multiline: JsonValue = JsonValue::Str(String::from("this has no new lines"));
    assert_eq!(is_multiline_string(&multiline), false);
}

#[test]
fn non_strings_are_never_multiline() {
    assert_eq!(is_multiline_string(&JsonValue::Null), false);
    assert_eq!(is_multiline_string(&JsonValue::Num(String::from("12345"))), false);
    let big = JsonValue::Arr(vec![JsonValue::Str(String::from("x\ny"))]);
    assert_eq!(is_multiline_string(&big), false);
}
