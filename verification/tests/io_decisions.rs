use fdf::hub::{first_token, parse_dataset_uri, parse_hub_location, select_parquet_file, HubError, HubRequest};
use fdf::io::{Arrangement, Format, Location, ReaderFactory, SourceError, WriterFactory, WriterLayout};
use fdf::spec::{default_mode, default_samples_per_shard, ColumnMapping, SinkSpec};

fn sink(kind: &str, uri: &str, pattern: Option<&str>) -> SinkSpec {
    SinkSpec {
        kind: kind.to_string(),
        uri: uri.to_string(),
        mode: default_mode(),
        shard_key: None,
        samples_per_shard: default_samples_per_shard(),
        shard_name_pattern: pattern.map(|p| p.to_string()),
        enable_trace: true,
    }
}

fn names(list: &[&str]) -> Vec<String> {
    list.iter().map(|s| s.to_string()).collect()
}

#[test]
fn the_defaults_of_a_sink() {
    assert_eq!(default_mode(), "overwrite");
    assert_eq!(default_samples_per_shard(), 10000);
    assert!(ColumnMapping::default().mapping.is_empty());
}

#[test]
fn the_format_of_a_source_file() {
    assert_eq!(ReaderFactory::format_of("parquet", "a.jsonl"), Format::Parquet);
    assert_eq!(ReaderFactory::format_of("jsonl", "a.parquet"), Format::Parquet);
    assert_eq!(ReaderFactory::format_of("jsonl", "a.txt"), Format::Jsonl);
    assert_eq!(ReaderFactory::format_of("json", "a"), Format::Jsonl);
    assert_eq!(ReaderFactory::format_of("", "a.json"), Format::Jsonl);
    assert_eq!(ReaderFactory::format_of("", "a.jsonl"), Format::Jsonl);
    assert_eq!(ReaderFactory::format_of("csv", "a.csv"), Format::Parquet);
}

#[test]
fn the_kinds_and_locations_of_the_hub() {
    assert!(ReaderFactory::reads_hub("huggingface"));
    assert!(ReaderFactory::reads_hub("hf"));
    assert!(!ReaderFactory::reads_hub("parquet"));
    assert!(ReaderFactory::is_hub_uri("hf://datasets/a/b/c.parquet"));
    assert!(!ReaderFactory::is_hub_uri("gs://bucket"));
}

#[test]
fn the_files_read_from_a_directory() {
    assert!(ReaderFactory::accepts_extension("parquet", "parquet"));
    assert!(!ReaderFactory::accepts_extension("parquet", "jsonl"));
    assert!(ReaderFactory::accepts_extension("jsonl", "json"));
    assert!(ReaderFactory::accepts_extension("json", "jsonl"));
    assert!(!ReaderFactory::accepts_extension("jsonl", "parquet"));
    assert!(ReaderFactory::accepts_extension("anything", "parquet"));
    assert!(ReaderFactory::accepts_extension("anything", "json"));
    assert!(!ReaderFactory::accepts_extension("anything", "csv"));
}

#[test]
fn readers_are_arranged_by_their_number() {
    assert_eq!(ReaderFactory::arrange(0), Err(SourceError::NoFiles));
    assert_eq!(ReaderFactory::arrange(1), Ok(Arrangement::Single));
    assert_eq!(ReaderFactory::arrange(2), Ok(Arrangement::Sequence));
    assert!(!ReaderFactory::projects(&ColumnMapping { mapping: Vec::new() }));
    assert!(ReaderFactory::projects(&ColumnMapping { mapping: vec![("id".to_string(), "id".to_string())] }));
}

#[test]
fn a_location_without_extension_is_a_directory_of_shards() {
    match WriterFactory::layout(&sink("jsonl", "out/final", None)) {
        WriterLayout::Sharded { format, pattern } => {
            assert_eq!(format, Format::Jsonl);
            assert_eq!(pattern, "part-{shard_id:08}.jsonl");
        }
        _ => panic!("a location without extension is a directory"),
    }
    match WriterFactory::layout(&sink("parquet", "out", Some("x-{shard_id}.parquet"))) {
        WriterLayout::Sharded { format, pattern } => {
            assert_eq!(format, Format::Parquet);
            assert_eq!(pattern, "x-{shard_id}.parquet");
        }
        _ => panic!("a location without extension is a directory"),
    }
    match WriterFactory::layout(&sink("parquet", "out/", None)) {
        WriterLayout::Sharded { pattern, .. } => assert_eq!(pattern, "part-{shard_id:08}.parquet"),
        _ => panic!("a location that ends in a slash is a directory"),
    }
    assert!(matches!(WriterFactory::layout(&sink("other", "out/file", None)), WriterLayout::Sharded { format: Format::Jsonl, .. }));
    assert!(matches!(WriterFactory::layout(&sink("jsonl", "out/file.txt", None)), WriterLayout::Sharded { .. }));
}

#[test]
fn a_location_with_extension_is_a_single_file() {
    assert!(matches!(
        WriterFactory::layout(&sink("jsonl", "out/a.parquet", None)),
        WriterLayout::Single { format: Format::Parquet }
    ));
    assert!(matches!(
        WriterFactory::layout(&sink("", "out/a.json", None)),
        WriterLayout::Single { format: Format::Jsonl }
    ));
    assert!(matches!(
        WriterFactory::layout(&sink("parquet", "out/a.jsonl", None)),
        WriterLayout::Single { format: Format::Parquet }
    ));
    assert!(matches!(
        WriterFactory::layout(&sink("", "out/a.jsonl", None)),
        WriterLayout::Single { format: Format::Jsonl }
    ));
}

#[test]
fn a_hub_location_names_a_dataset_and_a_file() {
    assert_eq!(
        parse_hub_location("hf://datasets/HuggingFaceFW/fineweb-edu/CC-MAIN-2024-10/train-00000-of-00014.parquet"),
        Ok(("HuggingFaceFW/fineweb-edu".to_string(), "CC-MAIN-2024-10/train-00000-of-00014.parquet".to_string()))
    );
    assert_eq!(
        parse_hub_location("hf://datasets/org/name/blob/main/blob/main/a.parquet"),
        Ok(("org/name".to_string(), "a.parquet".to_string()))
    );
    assert_eq!(
        parse_hub_location("hf://datasets/org/name/blob/master/dir/a.parquet"),
        Ok(("org/name".to_string(), "dir/a.parquet".to_string()))
    );
    assert_eq!(
        parse_hub_location("hf://datasets/org/name/blob/main/blob/master/a"),
        Ok(("org/name".to_string(), "blob/master/a".to_string()))
    );
    assert_eq!(parse_hub_location("hf://datasets/org//"), Ok(("org/".to_string(), "".to_string())));
}

#[test]
fn a_malformed_hub_location_is_refused() {
    assert_eq!(parse_hub_location("hf://models/org/name/file"), Err(HubError::NotADatasetUri));
    assert_eq!(parse_hub_location("https://datasets/org/name/file"), Err(HubError::NotADatasetUri));
    assert_eq!(parse_hub_location("hf://datasets/squad/train.parquet"), Err(HubError::MissingFilePath));
    assert_eq!(parse_hub_location("hf://datasets/"), Err(HubError::MissingFilePath));
}

fn split_request(uri: &str) -> (String, Option<String>, Option<String>) {
    match parse_dataset_uri(uri) {
        Ok(HubRequest::Split { dataset_id, config, split }) => (dataset_id, config, split),
        _ => panic!("{uri} names a split"),
    }
}

#[test]
fn a_dataset_identifier_names_a_file_or_a_split() {
    match parse_dataset_uri("HuggingFaceFW/fineweb-edu/blob/main/sample/10BT/000_00000.parquet") {
        Ok(HubRequest::File { dataset_id, file_path }) => {
            assert_eq!(dataset_id, "HuggingFaceFW/fineweb-edu");
            assert_eq!(file_path, "sample/10BT/000_00000.parquet");
        }
        _ => panic!("an identifier that ends in .parquet names a file"),
    }
    assert!(matches!(parse_dataset_uri("squad/train.parquet"), Err(HubError::MissingFilePath)));
    assert_eq!(split_request("squad"), ("squad".to_string(), None, None));
    assert_eq!(split_request("org/squad"), ("org/squad".to_string(), None, None));
    assert_eq!(
        split_request("squad/plain_text/Train"),
        ("squad/plain_text".to_string(), Some("plain_text".to_string()), Some("Train".to_string()))
    );
    assert_eq!(
        split_request("org/squad/plain_text"),
        ("org/squad".to_string(), Some("plain_text".to_string()), None)
    );
    assert_eq!(
        split_request("org/squad/plain_text/validation/extra"),
        ("org/squad".to_string(), Some("plain_text".to_string()), Some("validation".to_string()))
    );
}

#[test]
fn the_file_of_a_split_is_the_first_that_holds_it() {
    let files = names(&["README.md", "test.parquet", "train-00001.parquet", "train-00000.parquet", "trainer.parquet"]);
    assert_eq!(select_parquet_file(&files, None), Some("train-00000.parquet".to_string()));
    assert_eq!(select_parquet_file(&files, Some("test")), Some("test.parquet".to_string()));
    assert_eq!(select_parquet_file(&files, Some("trainer")), Some("trainer.parquet".to_string()));
    assert_eq!(select_parquet_file(&files, Some("dev")), Some("test.parquet".to_string()));
    assert_eq!(select_parquet_file(&names(&["a.json", "b.txt"]), None), None);
    assert_eq!(select_parquet_file(&Vec::new(), Some("train")), None);
    assert_eq!(select_parquet_file(&names(&["train.parquet", "train-0.parquet"]), None), Some("train-0.parquet".to_string()));
}

#[test]
fn the_first_token_present_wins() {
    assert_eq!(first_token(vec![None, Some("b".to_string()), Some("c".to_string())]), Some("b".to_string()));
    assert_eq!(first_token(vec![Some("a".to_string()), None, Some("c".to_string())]), Some("a".to_string()));
    assert_eq!(first_token(vec![None, None, None]), None);
    assert_eq!(first_token(Vec::new()), None);
}

#[test]
fn a_location_is_a_hub_file_a_directory_or_a_file() {
    assert_eq!(ReaderFactory::locate("hf://datasets/a/b/c", false, false), Ok(Location::Hub));
    assert_eq!(ReaderFactory::locate("hf://datasets/a/b/c", true, true), Ok(Location::Hub));
    assert_eq!(ReaderFactory::locate("data", true, true), Ok(Location::Directory));
    assert_eq!(ReaderFactory::locate("data/a.jsonl", false, true), Ok(Location::File));
    assert_eq!(ReaderFactory::locate("data/missing", false, false), Err(SourceError::DoesNotExist));
}

#[test]
fn the_files_of_a_directory_are_chosen_by_extension_and_sorted() {
    let entries: Vec<(String, String)> = [
        ("d/b.jsonl", "jsonl"),
        ("d/a.parquet", "parquet"),
        ("d/c.json", "json"),
        ("d/a.jsonl", "jsonl"),
        ("d/notes.txt", "txt"),
        ("d/B.jsonl", "jsonl"),
        ("d/a.jsonl", "jsonl"),
    ]
    .iter()
    .map(|(p, e)| (p.to_string(), e.to_string()))
    .collect();
    assert_eq!(
        ReaderFactory::select_files(&entries, "jsonl"),
        names(&["d/B.jsonl", "d/a.jsonl", "d/a.jsonl", "d/b.jsonl", "d/c.json"])
    );
    assert_eq!(ReaderFactory::select_files(&entries, "parquet"), names(&["d/a.parquet"]));
    assert_eq!(
        ReaderFactory::select_files(&entries, ""),
        names(&["d/B.jsonl", "d/a.jsonl", "d/a.jsonl", "d/a.parquet", "d/b.jsonl", "d/c.json"])
    );
    assert!(ReaderFactory::select_files(&Vec::new(), "jsonl").is_empty());
}
