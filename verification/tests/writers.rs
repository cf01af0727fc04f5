use fdf::io::reader::schema::{DataType, Field, Schema};
use fdf::io::writer::buffer::WriteBuffer;
use fdf::io::writer::parquet::{column_cell, evolve_schema, find_late_column, infer_column_type, SchemaError, SchemaState};
use fdf::sample::Sample;

fn record(text: &str) -> Sample {
    Sample::from_value(serde_json::from_str(text).unwrap()).unwrap()
}

fn schema(fields: &[(&str, DataType, bool)]) -> Schema {
    Schema {
        fields: fields
            .iter()
            .map(|(n, t, nullable)| Field { name: n.to_string(), data_type: *t, nullable: *nullable })
            .collect(),
    }
}

fn columns(s: &Schema) -> Vec<(String, DataType, bool)> {
    s.fields.iter().map(|f| (f.name.clone(), f.data_type, f.nullable)).collect()
}

fn ids(batch: &[Sample]) -> Vec<i64> {
    batch.iter().map(|s| s.get_i64("id").unwrap()).collect()
}

fn numbered(id: i64) -> Sample {
    let mut s = Sample::new();
    s.set_i64("id", id);
    s
}

#[test]
fn the_buffer_hands_on_its_records_when_it_is_full() {
    let mut buffer = WriteBuffer::new(3);
    assert!(buffer.write_sample(numbered(1)).is_none());
    assert!(buffer.write_sample(numbered(2)).is_none());
    let batch = buffer.write_sample(numbered(3)).unwrap();
    assert_eq!(ids(&batch), vec![1, 2, 3]);
    assert!(buffer.write_sample(numbered(4)).is_none());
    let (rest, has_data) = buffer.close();
    assert_eq!(ids(&rest.unwrap()), vec![4]);
    assert!(has_data);
}

#[test]
fn closing_an_unused_writer_reports_no_data() {
    let mut buffer = WriteBuffer::new(50000);
    let (batch, has_data) = buffer.close();
    assert!(batch.is_none());
    assert!(!has_data);
}

#[test]
fn closing_twice_is_closing_once() {
    let mut buffer = WriteBuffer::new(10);
    assert!(buffer.write_sample(numbered(1)).is_none());
    let (first, first_data) = buffer.close();
    assert_eq!(ids(&first.unwrap()), vec![1]);
    assert!(first_data);
    let (second, second_data) = buffer.close();
    assert!(second.is_none());
    assert_eq!(second_data, first_data);
    let mut unused = WriteBuffer::new(10);
    assert_eq!(unused.close().1, false);
    assert_eq!(unused.close().1, false);
}

#[test]
fn a_buffer_of_size_zero_hands_on_every_record() {
    let mut buffer = WriteBuffer::new(0);
    assert_eq!(ids(&buffer.write_sample(numbered(1)).unwrap()), vec![1]);
    assert_eq!(ids(&buffer.write_sample(numbered(2)).unwrap()), vec![2]);
    let (rest, has_data) = buffer.close();
    assert!(rest.is_none());
    assert!(has_data);
}

#[test]
fn a_closed_writer_keeps_nothing_back() {
    let mut buffer = WriteBuffer::new(5);
    let _ = buffer.close();
    assert_eq!(ids(&buffer.write_sample(numbered(9)).unwrap()), vec![9]);
}

#[test]
fn the_first_flush_extends_the_schema_by_the_new_columns() {
    let input = schema(&[("id", DataType::Int64, false), ("t", DataType::Utf8, true)]);
    let samples = vec![
        record(r#"{"id": 1, "t": "a", "n": null}"#),
        record(r#"{"id": 2, "t": "b", "n": 3, "ok": true}"#),
        record(r#"{"id": 3, "score": 0.5, "n": "late text"}"#),
    ];
    let out = evolve_schema(&input, &samples).ok().unwrap();
    let mut got = columns(&out);
    assert_eq!(got[0], ("id".to_string(), DataType::Int64, true));
    assert_eq!(got[1], ("t".to_string(), DataType::Utf8, true));
    let mut added = got.split_off(2);
    added.sort_by(|a, b| a.0.cmp(&b.0));
    assert_eq!(
        added,
        vec![
            ("n".to_string(), DataType::Int64, true),
            ("ok".to_string(), DataType::Boolean, true),
            ("score".to_string(), DataType::Float64, true),
        ]
    );
}

#[test]
fn a_column_of_nulls_is_text_and_the_input_types_stay() {
    let input = schema(&[("id", DataType::Utf8, false)]);
    let samples = vec![record(r#"{"id": 1, "z": null}"#), record(r#"{"z": null}"#)];
    let out = evolve_schema(&input, &samples).ok().unwrap();
    assert_eq!(
        columns(&out),
        vec![("id".to_string(), DataType::Utf8, true), ("z".to_string(), DataType::Utf8, true)]
    );
    assert!(matches!(evolve_schema(&input, &Vec::new()), Err(SchemaError::EmptyBatch)));
}

#[test]
fn a_new_column_of_arrays_cannot_be_typed() {
    let samples = vec![record(r#"{"a": null}"#), record(r#"{"a": [1]}"#), record(r#"{"a": 1}"#)];
    match evolve_schema(&Schema::empty(), &samples) {
        Err(SchemaError::Untypable { column }) => assert_eq!(column, "a"),
        _ => panic!("the first value of a is an array"),
    }
    assert_eq!(infer_column_type(&samples, "a"), None);
    assert_eq!(infer_column_type(&samples, "missing"), Some(DataType::Utf8));
    let nested = vec![record(r#"{"o": {"k": 1}}"#)];
    assert_eq!(infer_column_type(&nested, "o"), None);
    let typed = vec![record(r#"{"a": 1}"#), record(r#"{"a": [1]}"#)];
    assert_eq!(infer_column_type(&typed, "a"), Some(DataType::Int64));
    let big = vec![record(r#"{"a": 18446744073709551615}"#)];
    assert_eq!(infer_column_type(&big, "a"), Some(DataType::Float64));
}

#[test]
fn an_array_in_an_input_column_is_no_obstacle() {
    let input = schema(&[("a", DataType::Utf8, true)]);
    let samples = vec![record(r#"{"a": [1]}"#)];
    assert_eq!(columns(&evolve_schema(&input, &samples).ok().unwrap()), vec![("a".to_string(), DataType::Utf8, true)]);
}

#[test]
fn after_the_first_flush_a_new_column_is_refused() {
    let mut state = SchemaState::new(schema(&[("id", DataType::Int64, true)]));
    assert!(!state.is_fixed());
    assert!(state.accept(&vec![record(r#"{"id": 1, "n": 2}"#)]).is_ok());
    assert!(state.is_fixed());
    assert!(state.accept(&vec![record(r#"{"id": 2}"#), record(r#"{"n": 5}"#)]).is_ok());
    match state.accept(&vec![record(r#"{"id": 3, "n": 1}"#), record(r#"{"id": 4, "late": 1}"#)]) {
        Err(SchemaError::LateColumn { column }) => assert_eq!(column, "late"),
        _ => panic!("late is outside the fixed schema"),
    }
    assert!(matches!(state.accept(&Vec::new()), Err(SchemaError::EmptyBatch)));
    assert!(matches!(SchemaState::new(Schema::empty()).accept(&Vec::new()), Err(SchemaError::EmptyBatch)));
}

#[test]
fn a_first_batch_that_cannot_be_typed_leaves_the_schema_open() {
    let mut state = SchemaState::new(Schema::empty());
    assert!(matches!(
        state.accept(&vec![record(r#"{"a": {"k": 1}}"#)]),
        Err(SchemaError::Untypable { .. })
    ));
    assert!(!state.is_fixed());
    assert!(state.accept(&vec![record(r#"{"a": "x"}"#)]).is_ok());
    assert!(state.is_fixed());
}

#[test]
fn the_late_column_is_the_first_outside_the_schema() {
    let s = schema(&[("id", DataType::Int64, true)]);
    assert_eq!(find_late_column(&s, &vec![record(r#"{"id": 1}"#), record("{}")]), None);
    assert_eq!(find_late_column(&s, &vec![record(r#"{"id": 1}"#), record(r#"{"x": 1}"#)]), Some("x".to_string()));
    assert_eq!(find_late_column(&Schema::empty(), &Vec::new()), None);
}

#[test]
fn records_are_written_one_per_line() {
    let batch = vec![record(r#"{"id": 1, "t": "a\nb"}"#), record("{}"), record(r#"{"x": [1, null]}"#)];
    assert_eq!(
        fdf::io::writer::jsonl::render_lines(&batch),
        Some("{\"id\":1,\"t\":\"a\\nb\"}\n{}\n{\"x\":[1,null]}\n".to_string())
    );
    assert_eq!(fdf::io::writer::jsonl::render_lines(&Vec::new()), Some(String::new()));
}

#[test]
fn a_cell_holds_the_value_of_the_type_of_its_column() {
    let r = record(r#"{"t": "a", "i": 7, "x": 1.5, "b": true, "z": null, "big": 18446744073709551615}"#);
    assert_eq!(column_cell(&r, "t", DataType::Utf8).and_then(|v| v.as_str()), Some("a"));
    assert_eq!(column_cell(&r, "i", DataType::Int64).and_then(|v| v.as_i64()), Some(7));
    assert!(column_cell(&r, "x", DataType::Float64).is_some());
    assert_eq!(column_cell(&r, "b", DataType::Boolean).and_then(|v| v.as_bool()), Some(true));
    assert!(column_cell(&r, "i", DataType::Float64).is_none());
    assert!(column_cell(&r, "big", DataType::Float64).is_none());
    assert!(column_cell(&r, "big", DataType::Int64).is_none());
    assert!(column_cell(&r, "x", DataType::Int64).is_none());
    assert!(column_cell(&r, "i", DataType::Utf8).is_none());
    assert!(column_cell(&r, "z", DataType::Utf8).is_none());
    assert!(column_cell(&r, "missing", DataType::Utf8).is_none());
    assert!(column_cell(&r, "t", DataType::Other).is_none());
    assert!(r.get_float("x").is_some());
    assert!(r.get_float("i").is_none());
}

#[test]
fn new_columns_stand_in_the_order_they_were_first_seen() {
    let input = schema(&[("id", DataType::Int64, false)]);
    let samples = vec![
        record(r#"{"id": 1, "z": "x"}"#),
        record(r#"{"m": 1, "z": "y"}"#),
        record(r#"{"a": true, "m": 2, "id": 3}"#),
    ];
    let out = evolve_schema(&input, &samples).ok().unwrap();
    let names: Vec<&str> = out.fields.iter().map(|f| f.name.as_str()).collect();
    assert_eq!(names, vec!["id", "z", "m", "a"]);
}
