use fdf::config::{ConfigIssue, DataSourceConfig, InputConfig, OperatorConfig, OutputConfig, PipelineConfig, StageConfig};
use fdf::context::Context;
use fdf::manifest::{Manifest, OperatorManifest, StageManifest};
use fdf::micropartition::MicroPartition;
use fdf::operators::textstat::{annotated_column, metric_column, metric_names, text_metrics, TextMetrics};
use fdf::runtime::{add_batch_counts, chained_manifests, operator_manifests, row_pairs, stage_input, PartitionAction, Partitioner, RowLimit, Taken};

fn source(path: &str) -> DataSourceConfig {
    DataSourceConfig {
        source_type: "parquet".to_string(),
        path: Some(path.to_string()),
        streaming: None,
        token: None,
        limit: None,
    }
}

fn stage(name: &str, with_input: bool) -> StageConfig {
    StageConfig {
        name: name.to_string(),
        input: if with_input { Some(InputConfig { source: source("in") }) } else { None },
        operators: Vec::new(),
        output: OutputConfig { source: source("out") },
    }
}

fn pipeline(stages: Vec<StageConfig>) -> PipelineConfig {
    PipelineConfig { name: "p".to_string(), stages }
}

fn entries(text: &str) -> Vec<(String, serde_yaml::Value)> {
    let value: serde_yaml::Value = serde_yaml::from_str(text).unwrap();
    value
        .as_mapping()
        .unwrap()
        .iter()
        .map(|(k, v)| (k.as_str().unwrap().to_string(), v.clone()))
        .collect()
}

fn yaml(text: &str) -> serde_yaml::Value {
    serde_yaml::from_str(text).unwrap()
}

#[test]
fn a_pipeline_of_distinct_stages_with_an_input_is_valid() {
    assert!(pipeline(vec![stage("a", true), stage("b", false), stage("c", false)]).validate().is_ok());
    assert!(pipeline(Vec::new()).validate().is_ok());
}

#[test]
fn a_repeated_stage_name_is_refused_first() {
    match pipeline(vec![stage("a", false), stage("b", false), stage("a", false), stage("b", false)]).validate() {
        Err(ConfigIssue::DuplicateStage { name }) => assert_eq!(name, "a"),
        _ => panic!("the third stage repeats the first"),
    }
}

#[test]
fn a_first_stage_without_input_is_refused() {
    match pipeline(vec![stage("first", false), stage("b", true)]).validate() {
        Err(ConfigIssue::FirstStageWithoutInput { name }) => assert_eq!(name, "first"),
        _ => panic!("the first stage has no input"),
    }
}

#[test]
fn the_name_of_an_operator_is_its_first_custom_key() {
    assert_eq!(OperatorConfig::Simple("textstat-filter".to_string()).get_operator_name(), "textstat-filter");
    let named = OperatorConfig::WithParams { params: entries("{id: 7, textstat-annotator: {column: body}, other: 1}") };
    assert_eq!(named.get_operator_name(), "textstat-annotator");
    let by_op = OperatorConfig::WithParams { params: entries("{id: 7, op: textstat-filter, params: {a: 1}}") };
    assert_eq!(by_op.get_operator_name(), "textstat-filter");
    let op_not_text = OperatorConfig::WithParams { params: entries("{op: 3}") };
    assert_eq!(op_not_text.get_operator_name(), "unknown");
    assert_eq!(OperatorConfig::WithParams { params: Vec::new() }.get_operator_name(), "unknown");
}

#[test]
fn the_parameters_of_an_operator_are_those_nested_under_it() {
    assert!(OperatorConfig::Simple("x".to_string()).get_params().is_empty());
    let config = OperatorConfig::WithParams {
        params: entries("{id: {skipped: 1}, textstat-filter: {metrics: {a: 1}, 3: x, column: body}, params: {limit: 5}, op: {no: 1}, kind: k}"),
    };
    let params = config.get_params();
    let names: Vec<&str> = params.iter().map(|p| p.0.as_str()).collect();
    assert_eq!(names, vec!["metrics", "column", "limit"]);
    assert_eq!(params[1].1, yaml("body"));
    assert_eq!(params[2].1, yaml("5"));
    let scalar = OperatorConfig::WithParams { params: entries("{textstat-annotator: 5}") };
    assert!(scalar.get_params().is_empty());
}

#[test]
fn a_manifest_records_its_stages_in_order() {
    let mut manifest = Manifest::new("pipeline".to_string());
    assert_eq!(manifest.pipeline_name, "pipeline");
    assert!(manifest.stages.is_empty());
    for name in ["one", "two"] {
        manifest.add_stage(StageManifest {
            name: name.to_string(),
            input_path: None,
            output_path: "out".to_string(),
            partition_files: Vec::new(),
            operators: Vec::new(),
            total_input_rows: 3,
            total_output_rows: 2,
        });
    }
    let names: Vec<&str> = manifest.stages.iter().map(|s| s.name.as_str()).collect();
    assert_eq!(names, vec!["one", "two"]);
    assert_eq!(manifest.pipeline_name, "pipeline");
}

#[test]
fn only_a_filter_that_removed_rows_reports_them() {
    assert_eq!(OperatorManifest::new("f".to_string(), "filter".to_string(), 10, 7).filtered_rows, Some(3));
    assert_eq!(OperatorManifest::new("f".to_string(), "filter".to_string(), 10, 10).filtered_rows, None);
    assert_eq!(OperatorManifest::new("f".to_string(), "filter".to_string(), 7, 10).filtered_rows, None);
    assert_eq!(OperatorManifest::new("a".to_string(), "annotator".to_string(), 10, 7).filtered_rows, None);
    let m = operator_manifests(
        &vec![("a".to_string(), "annotator".to_string()), ("f".to_string(), "filter".to_string())],
        &vec![(5, 5), (5, 2)],
    );
    assert_eq!(m.len(), 2);
    assert_eq!((m[0].name.as_str(), m[0].kind.as_str(), m[0].input_rows, m[0].output_rows, m[0].filtered_rows), ("a", "annotator", 5, 5, None));
    assert_eq!((m[1].name.as_str(), m[1].kind.as_str(), m[1].input_rows, m[1].output_rows, m[1].filtered_rows), ("f", "filter", 5, 2, Some(3)));
}

#[test]
fn a_stage_reads_its_own_input_or_the_output_before_it() {
    let own = source("own");
    let previous = source("previous");
    assert_eq!(stage_input(Some(&own), Some(&previous)).unwrap().path, Some("own".to_string()));
    assert_eq!(stage_input(None, Some(&previous)).unwrap().path, Some("previous".to_string()));
    assert_eq!(stage_input(Some(&own), None).unwrap().path, Some("own".to_string()));
    assert!(stage_input(None, None).is_none());
}

#[test]
fn the_row_counts_of_batches_add_up() {
    let mut totals = vec![0, 0, 0];
    assert!(add_batch_counts(&mut totals, &vec![10, 10, 4]));
    assert!(add_batch_counts(&mut totals, &vec![5, 5, 5]));
    assert_eq!(totals, vec![15, 15, 9]);
    assert!(!add_batch_counts(&mut totals, &vec![1, 1, usize::MAX]));
    assert_eq!(totals, vec![15, 15, 9]);
}

#[test]
fn an_operator_takes_in_what_the_one_before_gave_out() {
    assert_eq!(row_pairs(&vec![15, 15, 9, 2]), vec![(15, 15), (15, 9), (9, 2)]);
    assert_eq!(row_pairs(&vec![7]), Vec::new());
    assert_eq!(row_pairs(&Vec::new()), Vec::new());
    let names = vec![
        ("a".to_string(), "annotator".to_string()),
        ("f".to_string(), "filter".to_string()),
        ("g".to_string(), "filter".to_string()),
    ];
    let m = chained_manifests(&names, &vec![15, 15, 9, 9]);
    let rows: Vec<(usize, usize, Option<usize>)> = m.iter().map(|o| (o.input_rows, o.output_rows, o.filtered_rows)).collect();
    assert_eq!(rows, vec![(15, 15, None), (15, 9, Some(6)), (9, 9, None)]);
    assert_eq!(m[2].name, "g");
    assert!(chained_manifests(&Vec::new(), &vec![3]).is_empty());
}

#[test]
fn small_batches_are_gathered_until_the_next_would_not_fit() {
    let mut p = Partitioner::new(10);
    assert_eq!(p.finish(), None);
    assert_eq!(p.place(4), Ok(vec![PartitionAction::Gather { offset: 0, len: 4 }]));
    assert_eq!(p.place(6), Ok(vec![PartitionAction::Gather { offset: 0, len: 6 }]));
    assert_eq!(
        p.place(1),
        Ok(vec![PartitionAction::WriteGathered { index: 0, rows: 10 }, PartitionAction::Gather { offset: 0, len: 1 }])
    );
    assert_eq!(p.place(0), Ok(vec![PartitionAction::Gather { offset: 0, len: 0 }]));
    assert_eq!(p.finish(), Some(1));
}

#[test]
fn the_rows_that_wait_are_written_before_a_large_batch() {
    let mut p = Partitioner::new(10000);
    assert_eq!(p.place(9000), Ok(vec![PartitionAction::Gather { offset: 0, len: 9000 }]));
    assert_eq!(
        p.place(19999),
        Ok(vec![
            PartitionAction::WriteGathered { index: 0, rows: 9000 },
            PartitionAction::WriteSlice { offset: 0, len: 10000, index: 1 },
            PartitionAction::Gather { offset: 10000, len: 9999 },
        ])
    );
    assert_eq!(
        p.place(2),
        Ok(vec![PartitionAction::WriteGathered { index: 2, rows: 9999 }, PartitionAction::Gather { offset: 0, len: 2 }])
    );
    assert_eq!(p.finish(), Some(3));
}

#[test]
fn a_large_batch_is_cut_into_partitions_of_its_own() {
    let mut p = Partitioner::new(10);
    assert_eq!(
        p.place(25),
        Ok(vec![
            PartitionAction::WriteSlice { offset: 0, len: 10, index: 0 },
            PartitionAction::WriteSlice { offset: 10, len: 10, index: 1 },
            PartitionAction::Gather { offset: 20, len: 5 },
        ])
    );
    assert_eq!(
        p.place(20),
        Ok(vec![
            PartitionAction::WriteGathered { index: 2, rows: 5 },
            PartitionAction::WriteSlice { offset: 0, len: 10, index: 3 },
            PartitionAction::Gather { offset: 10, len: 10 },
        ])
    );
    assert_eq!(
        p.place(1),
        Ok(vec![PartitionAction::WriteGathered { index: 4, rows: 10 }, PartitionAction::Gather { offset: 0, len: 1 }])
    );
    assert_eq!(p.finish(), Some(5));
    let mut unit = Partitioner::new(0);
    assert_eq!(
        unit.place(2),
        Ok(vec![PartitionAction::WriteSlice { offset: 0, len: 1, index: 0 }, PartitionAction::Gather { offset: 1, len: 1 }])
    );
}

#[test]
fn the_counts_of_a_text() {
    assert_eq!(
        text_metrics("Hello wörld. It's  2 o'clock...\n"),
        TextMetrics { character_count: 32, letter_count: 19, lexicon_count: 5, sentence_count: 4 }
    );
    assert_eq!(text_metrics(""), TextMetrics { character_count: 0, letter_count: 0, lexicon_count: 0, sentence_count: 1 });
    assert_eq!(text_metrics("  \t "), TextMetrics { character_count: 4, letter_count: 0, lexicon_count: 0, sentence_count: 1 });
    assert_eq!(text_metrics("a\u{2003}b"), TextMetrics { character_count: 3, letter_count: 2, lexicon_count: 2, sentence_count: 1 });
    for text in ["one two  three", " x.y.z ", "日本語 テキスト。", "Ünïcödé\u{a0}spaces . ."] {
        let m = text_metrics(text);
        assert_eq!(m.character_count, text.chars().count());
        assert_eq!(m.letter_count, text.chars().filter(|c| c.is_alphabetic()).count());
        assert_eq!(m.lexicon_count, text.split_whitespace().count());
        assert_eq!(m.sentence_count, text.matches('.').count().max(1));
    }
}

#[test]
fn the_columns_of_the_text_statistics() {
    assert_eq!(metric_column("letter_count"), "__annotation_textstat_letter_count");
    assert_eq!(metric_column(""), "__annotation_textstat_");
    assert_eq!(
        metric_names(),
        vec![
            "character_count",
            "letter_count",
            "lexicon_count",
            "sentence_count",
            "flesch_reading_ease",
            "automated_readability_index",
            "syllable_count",
            "polysyllable_count",
            "monosyllable_count",
            "difficult_words",
        ]
    );
    assert_eq!(annotated_column(&entries("{other: 1, column: body, column2: x}")), "body");
    assert_eq!(annotated_column(&entries("{column: 5}")), "text");
    assert_eq!(annotated_column(&Vec::new()), "text");
}

#[test]
fn the_default_context_and_the_empty_partition() {
    let context = Context::default();
    assert_eq!(context.job_id, "default");
    assert_eq!(context.shard_id, None);
    assert_eq!(MicroPartition::empty().num_rows(), 0);
}

#[test]
fn a_limit_cuts_the_batch_that_crosses_it() {
    let mut limit = RowLimit::new(Some(25));
    assert!(limit.wants_more());
    assert_eq!(limit.take(10), Taken::All);
    assert_eq!(limit.take(15), Taken::All);
    assert!(!limit.wants_more());
    let mut cut = RowLimit::new(Some(25));
    assert_eq!(cut.take(20), Taken::All);
    assert_eq!(cut.take(10), Taken::First(5));
    assert!(!cut.wants_more());
    let mut none = RowLimit::new(Some(0));
    assert!(!none.wants_more());
    assert_eq!(none.take(3), Taken::First(0));
    let mut open = RowLimit::new(None);
    assert_eq!(open.take(usize::MAX), Taken::All);
    assert!(!open.wants_more());
    let mut wide = RowLimit::new(None);
    assert_eq!(wide.take(7), Taken::All);
    assert!(wide.wants_more());
}
