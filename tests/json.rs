use asic_rs::json::{JsonValue, get_by_key, get_by_pointer};

fn obj(entries: Vec<(&str, JsonValue)>) -> JsonValue {
    JsonValue::Object(entries.into_iter().map(|(k, v)| (k.to_string(), v)).collect())
}

fn num(t: &str) -> JsonValue {
    JsonValue::Number(t.to_string())
}

fn sample() -> JsonValue {
    obj(vec![
        ("a", JsonValue::Array(vec![obj(vec![("b", num("1"))]), num("2")])),
        ("x/y", num("3")),
        ("m~n", num("4")),
        ("", num("5")),
        ("flag", JsonValue::Bool(true)),
    ])
}

#[test]
fn key_lookup_finds_present_entry() {
    let v = sample();
    assert_eq!(get_by_key(&v, Some("flag")), Some(&JsonValue::Bool(true)));
    assert_eq!(get_by_key(&v, Some("missing")), None);
    assert_eq!(get_by_key(&v, None), None);
    assert_eq!(get_by_key(&num("1"), Some("a")), None);
}

#[test]
fn key_lookup_is_shallow() {
    let v = sample();
    assert_eq!(get_by_key(&v, Some("a/0/b")), None);
    assert_eq!(get_by_key(&v, Some("b")), None);
}

#[test]
fn pointer_resolves_nested_value() {
    let v = sample();
    assert_eq!(get_by_pointer(&v, Some("/a/0/b")), Some(&num("1")));
    assert_eq!(get_by_pointer(&v, Some("/a/1")), Some(&num("2")));
    assert_eq!(get_by_pointer(&v, Some("")), Some(&v));
    assert_eq!(get_by_pointer(&v, Some("/")), Some(&num("5")));
}

#[test]
fn pointer_absent_when_a_segment_fails() {
    let v = sample();
    assert_eq!(get_by_pointer(&v, Some("/a/2")), None);
    assert_eq!(get_by_pointer(&v, Some("/a/x")), None);
    assert_eq!(get_by_pointer(&v, Some("/nope/0/b")), None);
    assert_eq!(get_by_pointer(&v, Some("/a/0/b/c")), None);
    assert_eq!(get_by_pointer(&v, Some("/a/01")), None);
    assert_eq!(get_by_pointer(&v, Some("/a/+1")), None);
    assert_eq!(get_by_pointer(&v, Some("a")), None);
    assert_eq!(get_by_pointer(&v, None), None);
}

#[test]
fn pointer_unescapes_segments() {
    let v = sample();
    assert_eq!(get_by_pointer(&v, Some("/x~1y")), Some(&num("3")));
    assert_eq!(get_by_pointer(&v, Some("/m~0n")), Some(&num("4")));
    assert_eq!(get_by_pointer(&v, Some("/x/y")), None);
}

#[test]
fn pointer_index_overflow_is_absent() {
    let v = sample();
    assert_eq!(get_by_pointer(&v, Some("/a/99999999999999999999999")), None);
}

#[test]
fn repeated_name_takes_the_last_entry() {
    let v = obj(vec![("k", num("1")), ("k", num("2"))]);
    assert_eq!(get_by_key(&v, Some("k")), Some(&num("2")));
    assert_eq!(get_by_pointer(&v, Some("/k")), Some(&num("2")));
}
