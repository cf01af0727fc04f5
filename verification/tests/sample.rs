use fdf::sample::{unit_interval_numerator, Sample};

fn value(text: &str) -> serde_json::Value {
    serde_json::from_str(text).unwrap()
}

#[test]
fn a_new_record_has_no_columns() {
    let s = Sample::new();
    assert!(s.as_value().is_object());
    assert!(s.keys().is_empty());
    assert!(!s.has("id"));
    assert_eq!(s.get_str("id"), None);
    let d = Sample::default();
    assert!(d.keys().is_empty());
}

#[test]
fn typed_setters_and_getters_agree() {
    let mut s = Sample::new();
    s.set_str("t", "hello");
    s.set_i64("n", -5);
    s.set_bool("b", true);
    s.set_null("z");
    assert_eq!(s.get_str("t"), Some("hello"));
    assert_eq!(s.get_i64("n"), Some(-5));
    assert_eq!(s.get_bool("b"), Some(true));
    assert!(s.has("z"));
    assert!(s.get("z").unwrap().is_null());
    assert_eq!(s.get_str("n"), None);
    assert_eq!(s.get_i64("t"), None);
    assert_eq!(s.get_bool("n"), None);
    assert_eq!(s.get_i64("z"), None);
    assert_eq!(s.get_str("missing"), None);
    let mut keys = s.keys();
    keys.sort();
    assert_eq!(keys, vec!["b", "n", "t", "z"]);
}

#[test]
fn a_setter_replaces_what_the_column_held() {
    let mut s = Sample::new();
    s.set_i64("x", 1);
    s.set_str("x", "one");
    assert_eq!(s.get_i64("x"), None);
    assert_eq!(s.get_str("x"), Some("one"));
    assert_eq!(s.keys().len(), 1);
}

#[test]
fn only_an_object_is_a_record() {
    assert!(Sample::from_value(value("[1, 2]")).is_none());
    assert!(Sample::from_value(value("3")).is_none());
    assert!(Sample::from_value(value("null")).is_none());
    let s = Sample::from_value(value(r#"{"id": 1, "t": "a", "big": 18446744073709551615, "x": 1.5}"#)).unwrap();
    assert_eq!(s.get_i64("id"), Some(1));
    assert_eq!(s.get_str("t"), Some("a"));
    assert_eq!(s.get_i64("big"), None);
    assert_eq!(s.get_i64("x"), None);
    assert_eq!(s.into_value(), value(r#"{"id": 1, "t": "a", "big": 18446744073709551615, "x": 1.5}"#));
}

#[test]
fn nested_values_are_reached_by_their_accessors() {
    let s = Sample::from_value(value(r#"{"a": [1, 2, 3], "o": {"k": "v"}, "t": "x"}"#)).unwrap();
    assert_eq!(s.get_array("a").unwrap().len(), 3);
    assert!(s.get_array("o").is_none());
    assert_eq!(s.get_object("o").unwrap().len(), 1);
    assert!(s.get_object("t").is_none());
    assert!(s.get_object("missing").is_none());
    assert_eq!(s.get("t"), Some(&value("\"x\"")));
    assert_eq!(s.get("missing"), None);
}

#[test]
fn a_value_that_is_no_object_takes_no_column() {
    let mut s = Sample(value("[1]"));
    s.set_str("t", "x");
    s.set_i64("n", 1);
    assert_eq!(s.as_value(), &value("[1]"));
    assert_eq!(s.remove("t"), None);
    assert!(s.keys().is_empty());
    assert_eq!(s.get_str("t"), None);
}

#[test]
fn remove_takes_the_column_out() {
    let mut s = Sample::new();
    s.set_i64("a", 1);
    s.set_value("b", value("[true]"));
    assert_eq!(s.remove("b"), Some(value("[true]")));
    assert_eq!(s.remove("b"), None);
    assert!(!s.has("b"));
    assert_eq!(s.get_i64("a"), Some(1));
}

#[test]
fn a_clone_is_equal_and_independent() {
    let mut s = Sample::new();
    s.set_str("t", "x");
    let c = s.clone();
    s.set_str("t", "y");
    assert_eq!(c.get_str("t"), Some("x"));
    assert_eq!(s.get_str("t"), Some("y"));
}

#[test]
fn rand53_is_the_top_of_the_seeded_hash_of_the_id() {
    let mut s = Sample::new();
    s.set_str("id", "doc-1");
    let expected = xxhash_rust::xxh3::xxh3_64_with_seed(b"doc-1", 42) >> 11;
    assert_eq!(s.rand53("id", 42), expected);
    assert!(s.rand53("id", 42) < (1u64 << 53));
    assert_ne!(s.rand53("id", 42), s.rand53("id", 43));
    let empty = xxhash_rust::xxh3::xxh3_64_with_seed(b"", 42) >> 11;
    assert_eq!(s.rand53("missing", 42), empty);
    assert_eq!(Sample::new().rand53("id", 42), empty);
}

#[test]
fn the_numerator_drops_the_low_eleven_bits() {
    assert_eq!(unit_interval_numerator(0), 0);
    assert_eq!(unit_interval_numerator(2047), 0);
    assert_eq!(unit_interval_numerator(2048), 1);
    assert_eq!(unit_interval_numerator(u64::MAX), (1u64 << 53) - 1);
}

#[test]
fn the_value_of_a_record_can_be_changed_in_place() {
    let mut s = Sample::new();
    s.set_i64("a", 1);
    *s.as_value_mut() = value(r#"{"b": "x"}"#);
    assert_eq!(s.get_str("b"), Some("x"));
    assert!(!s.has("a"));
}

#[test]
fn columns_that_are_not_touched_keep_their_values() {
    let mut s = Sample::from_value(value(r#"{"x": 1.5, "a": [1, 2], "o": {"k": "v"}, "t": "old"}"#)).unwrap();
    s.set_str("t", "new");
    assert_eq!(s.as_value(), &value(r#"{"x": 1.5, "a": [1, 2], "o": {"k": "v"}, "t": "new"}"#));
    assert_eq!(s.remove("a"), Some(value("[1, 2]")));
    assert_eq!(s.as_value(), &value(r#"{"x": 1.5, "o": {"k": "v"}, "t": "new"}"#));
    assert_eq!(s.remove("x"), Some(value("1.5")));
}
