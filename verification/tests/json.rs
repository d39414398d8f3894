use backend::json_text::string_object;

#[test]
fn string_values_are_escaped_like_serde_json() {
    let value = "a\"b\\c\nd\te\u{1}f\u{1f}é";
    assert_eq!(string_object("k", value), format!("{{\"k\":{}}}", serde_json::to_string(value).unwrap()));
    assert_eq!(string_object("k", "x\u{8}\u{c}\r"), "{\"k\":\"x\\b\\f\\r\"}");
    assert_eq!(string_object("k", "\u{1}"), "{\"k\":\"\\u0001\"}");
}
