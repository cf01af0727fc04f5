use fdf::io::reader::column_filter::{find_repeated, project, ColumnFilterReader, MappingError};
use fdf::io::reader::jsonl::{Decoded, JsonlReader};
use fdf::io::reader::multi_file::{schemas_compatible, MultiFileError, MultiFileReader};
use fdf::io::reader::schema::{DataType, Field, Schema};
use fdf::sample::Sample;
use fdf::spec::ColumnMapping;

fn record(text: &str) -> Sample {
    Sample::from_value(serde_json::from_str(text).unwrap()).unwrap()
}

fn schema(fields: &[(&str, DataType, bool)]) -> Schema {
    Schema {
        fields: fields
            .iter()
            .map(|(n, t, nullable)| Field { name: n.to_string(), data_type: *t, nullable: *nullable })
            .collect(),
    }
}

fn columns(s: &Schema) -> Vec<(String, DataType, bool)> {
    s.fields.iter().map(|f| (f.name.clone(), f.data_type, f.nullable)).collect()
}

fn mapping(pairs: &[(&str, &str)]) -> ColumnMapping {
    ColumnMapping { mapping: pairs.iter().map(|(n, o)| (n.to_string(), o.to_string())).collect() }
}

fn source() -> Schema {
    schema(&[("id", DataType::Int64, false), ("body", DataType::Utf8, true), ("ok", DataType::Boolean, true)])
}

#[test]
fn a_projection_keeps_the_listed_columns_under_their_new_names() {
    let reader = ColumnFilterReader::new(&source(), mapping(&[("text", "body"), ("id", "id")])).ok().unwrap();
    assert_eq!(
        columns(reader.schema()),
        vec![("text".to_string(), DataType::Utf8, true), ("id".to_string(), DataType::Int64, false)]
    );
    let out = reader.filter_and_rename(record(r#"{"id": 7, "body": "hello", "ok": true, "extra": 1}"#));
    assert_eq!(out.get_str("text"), Some("hello"));
    assert_eq!(out.get_i64("id"), Some(7));
    let mut keys = out.keys();
    keys.sort();
    assert_eq!(keys, vec!["id", "text"]);
    let partial = reader.filter_and_rename(record(r#"{"id": 8}"#));
    assert_eq!(partial.keys(), vec!["id"]);
}

#[test]
fn an_empty_mapping_keeps_everything() {
    let reader = ColumnFilterReader::new(&source(), mapping(&[])).ok().unwrap();
    assert_eq!(columns(reader.schema()), columns(&source()));
    let out = reader.filter_and_rename(record(r#"{"id": 7, "extra": [1]}"#));
    assert_eq!(out.into_value(), record(r#"{"id": 7, "extra": [1]}"#).into_value());
}

#[test]
fn a_listed_column_that_the_source_lacks_is_refused() {
    match ColumnFilterReader::new(&source(), mapping(&[("id", "id"), ("a", "nope"), ("b", "gone")])) {
        Err(MappingError::MissingColumn { name }) => assert_eq!(name, "nope"),
        _ => panic!("nope is no column of the source"),
    }
    assert!(matches!(project(&Schema::empty(), &mapping(&[("a", "a")]).mapping), Err(MappingError::MissingColumn { .. })));
}

#[test]
fn a_projection_knows_the_positions_of_its_source_columns() {
    let p = project(&source(), &mapping(&[("flag", "ok"), ("text", "body"), ("again", "ok")]).mapping).ok().unwrap();
    assert_eq!(p.indices, vec![2, 1, 2]);
    assert_eq!(
        columns(&p.schema),
        vec![
            ("flag".to_string(), DataType::Boolean, true),
            ("text".to_string(), DataType::Utf8, true),
            ("again".to_string(), DataType::Boolean, true),
        ]
    );
}

#[test]
fn a_new_name_stands_once() {
    match ColumnFilterReader::new(&source(), mapping(&[("x", "id"), ("y", "body"), ("x", "nope")])) {
        Err(MappingError::RepeatedName { name }) => assert_eq!(name, "x"),
        _ => panic!("x is named twice"),
    }
    assert!(matches!(
        project(&source(), &mapping(&[("a", "id"), ("a", "id")]).mapping),
        Err(MappingError::RepeatedName { .. })
    ));
    assert_eq!(find_repeated(&mapping(&[("a", "id"), ("b", "id"), ("b", "ok"), ("a", "ok")]).mapping), Some(2));
    assert_eq!(find_repeated(&mapping(&[("a", "id"), ("b", "id")]).mapping), None);
}

#[test]
fn a_projected_column_carries_the_value_of_its_source() {
    let reader = ColumnFilterReader::new(&source(), mapping(&[("x", "body"), ("n", "id")])).ok().unwrap();
    let out = reader.filter_and_rename(record(r#"{"id": 1.5, "body": [1, {"k": null}], "ok": true}"#));
    assert_eq!(out.into_value(), record(r#"{"x": [1, {"k": null}], "n": 1.5}"#).into_value());
}

#[test]
fn schemas_are_compatible_by_names_and_types() {
    let a = schema(&[("id", DataType::Int64, false), ("t", DataType::Utf8, true)]);
    let same = schema(&[("id", DataType::Int64, true), ("t", DataType::Utf8, false)]);
    let renamed = schema(&[("id", DataType::Int64, false), ("u", DataType::Utf8, true)]);
    let retyped = schema(&[("id", DataType::Utf8, false), ("t", DataType::Utf8, true)]);
    let shorter = schema(&[("id", DataType::Int64, false)]);
    assert!(schemas_compatible(&a, &same));
    assert!(!schemas_compatible(&a, &renamed));
    assert!(!schemas_compatible(&a, &retyped));
    assert!(!schemas_compatible(&a, &shorter));
    assert!(schemas_compatible(&Schema::empty(), &Schema::empty()));
}

#[test]
fn files_are_read_one_after_the_other() {
    let a = schema(&[("id", DataType::Int64, false)]);
    let mut reader = MultiFileReader::new(&vec![a, schema(&[("id", DataType::Int64, true)])]).ok().unwrap();
    assert_eq!(reader.current(), Some(0));
    reader.advance();
    assert_eq!(reader.current(), Some(1));
    reader.advance();
    assert_eq!(reader.current(), None);
    reader.advance();
    assert_eq!(reader.current(), None);
}

#[test]
fn a_sequence_needs_readers_of_one_schema() {
    assert!(matches!(MultiFileReader::new(&Vec::new()), Err(MultiFileError::NoReaders)));
    let a = schema(&[("id", DataType::Int64, false)]);
    let b = schema(&[("id", DataType::Int64, false)]);
    let c = schema(&[("id", DataType::Utf8, false)]);
    let d = schema(&[]);
    assert!(matches!(
        MultiFileReader::new(&vec![a, b, c, d]),
        Err(MultiFileError::IncompatibleSchema { index: 2 })
    ));
}

#[test]
fn a_line_is_a_record_a_failure_or_blank() {
    match JsonlReader::decode_line("{\"id\": 1, \"t\": \"a\"}\n") {
        Decoded::Record(s) => {
            assert_eq!(s.get_i64("id"), Some(1));
            assert_eq!(s.get_str("t"), Some("a"));
        }
        _ => panic!("the line is a record"),
    }
    match JsonlReader::decode_line("{\"id\": 1,\n") {
        Decoded::Failure(e) => {
            assert!(e.message.starts_with("Failed to parse JSON: "));
            assert!(e.message.len() > "Failed to parse JSON: ".len());
        }
        _ => panic!("the line is malformed"),
    }
    assert!(matches!(JsonlReader::decode_line(""), Decoded::Blank));
    assert!(matches!(JsonlReader::decode_line("  \t\n"), Decoded::Blank));
    assert!(matches!(JsonlReader::decode_line("\u{2003}\u{a0}\r\n"), Decoded::Blank));
    match JsonlReader::decode_line("[1, 2]") {
        Decoded::Record(s) => assert!(s.keys().is_empty() && s.as_value().is_object()),
        _ => panic!("a value that is no object gives an empty record"),
    }
    assert_eq!(fdf::io::reader::jsonl::parse_failure("why").message, "Failed to parse JSON: why");
}

#[test]
fn blank_lines_are_skipped_and_no_row_is_lost() {
    let lines: Vec<String> =
        ["{\"id\": 1}\n", "\n", "{\"id\": 2}\n", "not json\n", "   \n", "{\"id\": 3}"].iter().map(|l| l.to_string()).collect();
    let items = JsonlReader::decode_lines(&lines);
    assert_eq!(items.len(), 4);
    assert_eq!(items[0].as_ref().ok().unwrap().get_i64("id"), Some(1));
    assert_eq!(items[1].as_ref().ok().unwrap().get_i64("id"), Some(2));
    assert!(items[2].is_err());
    assert_eq!(items[3].as_ref().ok().unwrap().get_i64("id"), Some(3));
    assert!(JsonlReader::decode_lines(&vec!["\n".to_string()]).is_empty());
}

#[test]
fn the_schema_is_that_of_the_first_line() {
    let mut reader = JsonlReader::new("{\"id\": 1, \"t\": \"a\", \"x\": 1.5, \"ok\": false, \"z\": null, \"a\": []}\n".to_string());
    let mut got = columns(reader.schema());
    got.sort_by(|a, b| a.0.cmp(&b.0));
    assert_eq!(
        got,
        vec![
            ("a".to_string(), DataType::Utf8, true),
            ("id".to_string(), DataType::Int64, true),
            ("ok".to_string(), DataType::Boolean, true),
            ("t".to_string(), DataType::Utf8, true),
            ("x".to_string(), DataType::Float64, true),
            ("z".to_string(), DataType::Utf8, true),
        ]
    );
    assert!(reader.take_pending().unwrap().starts_with("{\"id\": 1"));
    assert_eq!(reader.take_pending(), None);
}

#[test]
fn a_blank_or_malformed_first_line_gives_the_empty_schema() {
    let empty = JsonlReader::new("\n".to_string());
    assert!(empty.schema().fields.is_empty());
    let mut broken = JsonlReader::new("not json\n".to_string());
    assert!(broken.schema().fields.is_empty());
    let pending = broken.take_pending().unwrap();
    assert!(matches!(JsonlReader::decode_line(&pending), Decoded::Failure(_)));
    let scalar = JsonlReader::new("42".to_string());
    assert!(scalar.schema().fields.is_empty());
    let record = JsonlReader::json_to_sample(serde_json::from_str("{\"k\": 1}").unwrap());
    assert_eq!(record.get_i64("k"), Some(1));
    assert_eq!(JsonlReader::infer_schema(&serde_json::from_str("7").unwrap()).fields.len(), 0);
}

#[test]
fn a_row_is_the_record_of_its_cells() {
    let names = vec!["id".to_string(), "t".to_string(), "id".to_string(), "extra".to_string()];
    let cells: Vec<serde_json::Value> =
        vec![serde_json::from_str("1").unwrap(), serde_json::from_str("\"a\"").unwrap(), serde_json::from_str("2").unwrap()];
    let row = fdf::io::reader::parquet::row_to_sample(&names, cells);
    assert_eq!(row.get_i64("id"), Some(2));
    assert_eq!(row.get_str("t"), Some("a"));
    assert!(!row.has("extra"));
    assert_eq!(row.keys().len(), 2);
    let empty = fdf::io::reader::parquet::row_to_sample(&Vec::new(), vec![serde_json::Value::Null]);
    assert!(empty.keys().is_empty());
}
