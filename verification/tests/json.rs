use transom_client::wire::json::Value;

#[test]
fn parses_a_flat_object() {
    let v = Value::parse(r#"{"type":"windowMoved","id":1,"rect":{"x":2300,"y":500}}"#).unwrap();
    assert_eq!(v.get("type").and_then(Value::as_str), Some("windowMoved"));
    assert_eq!(v.get("id").and_then(Value::as_u64), Some(1));
    assert_eq!(
        v.get("rect").and_then(|r| r.get("x")).and_then(Value::as_u32),
        Some(2300)
    );
}

#[test]
fn keeps_u64_ids_exact() {
    // Beyond f64's integer range: proves we don't round-trip through f64.
    let v = Value::parse(r#"{"id":9007199254740993}"#).unwrap();
    assert_eq!(v.get("id").and_then(Value::as_u64), Some(9_007_199_254_740_993));
}

#[test]
fn parses_signed_numbers() {
    let v = Value::parse(r#"{"dx":-3,"dy":7}"#).unwrap();
    assert_eq!(v.get("dx").and_then(Value::as_i32), Some(-3));
    assert_eq!(v.get("dy").and_then(Value::as_i32), Some(7));
}

#[test]
fn parses_string_escapes() {
    let v = Value::parse(r#"{"t":"a\"b\\c\n\td\/e"}"#).unwrap();
    assert_eq!(v.get("t").and_then(Value::as_str), Some("a\"b\\c\n\td/e"));
}

#[test]
fn parses_unicode_escape_and_surrogate_pair() {
    let v = Value::parse(r#"{"t":"é😀"}"#).unwrap();
    assert_eq!(v.get("t").and_then(Value::as_str), Some("é😀"));
}

#[test]
fn preserves_raw_utf8() {
    let v = Value::parse(r#"{"t":"café — 世界"}"#).unwrap();
    assert_eq!(v.get("t").and_then(Value::as_str), Some("café — 世界"));
}

#[test]
fn parses_arrays_and_empty_containers() {
    let v = Value::parse(r#"{"windows":[{"id":1},{"id":2}],"empty":[],"o":{}}"#).unwrap();
    let arr = v.get("windows").and_then(Value::as_array).unwrap();
    assert_eq!(arr.len(), 2);
    assert_eq!(arr[1].get("id").and_then(Value::as_u64), Some(2));
    assert_eq!(v.get("empty").and_then(Value::as_array).unwrap().len(), 0);
}

#[test]
fn rejects_trailing_garbage() {
    assert!(Value::parse(r#"{"a":1} x"#).is_err());
    assert!(Value::parse(r#"{"a":}"#).is_err());
    assert!(Value::parse(r#"{"a":1,}"#).is_err());
}

#[test]
fn round_trips_via_builder() {
    let v = Value::object(vec![
        ("type", Value::str("requestFocus")),
        ("id", Value::uint(7)),
    ]);
    assert_eq!(v.to_json(), r#"{"type":"requestFocus","id":7}"#);
}

#[test]
fn escapes_on_write() {
    let v = Value::object(vec![("t", Value::str("a\"b\nc"))]);
    assert_eq!(v.to_json(), r#"{"t":"a\"b\nc"}"#);
}

#[test]
fn reparses_what_it_writes() {
    let original = r#"{"type":"input","id":7,"event":{"kind":"mouseDown","x":400,"y":300,"button":"left"},"ts":12897}"#;
    let v = Value::parse(original).unwrap();
    let reparsed = Value::parse(&v.to_json()).unwrap();
    assert_eq!(v, reparsed);
}
