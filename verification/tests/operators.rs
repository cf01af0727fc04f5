use fdf::op::{DynOperator, Operator, OperatorFactory};
use fdf::operators::add_id::AddIdAnnotator;
use fdf::operators::builtin::{register, register_all, BuiltinFactory, BuiltinOperator};
use fdf::operators::normalize::{normalize_text, NormalizeTransformer};
use fdf::operators::keep_all::{FastTextClassifierFilter, GopherQualityFilter, GopherRepetitionFilter};
use fdf::operators::symbol_ratio::{count_words, SymbolCounter};
use fdf::operators::text_len::TextLenFilter;
use fdf::plan::{Delivery, Plan};
use fdf::registry::{BuildError, OperatorRegistry};
use fdf::sample::Sample;
use fdf::spec::{ColumnMapping, NodeError, OperatorNode, PipelineSpec, SinkSpec, SourceSpec};
use fdf::yaml::{bool_field, str_field, u64_field};

fn yaml(text: &str) -> serde_yaml::Value {
    serde_yaml::from_str(text).unwrap()
}

fn with_text(t: &str) -> Sample {
    let mut s = Sample::new();
    s.set_str("text", t);
    s
}

fn kept(r: Result<Option<Sample>, fdf::op::OperatorError>) -> Sample {
    r.ok().unwrap().unwrap()
}

fn spec(pipeline: Vec<OperatorNode>) -> PipelineSpec {
    PipelineSpec {
        source: SourceSpec {
            kind: "jsonl".to_string(),
            uris: vec!["in.jsonl".to_string()],
            columns: ColumnMapping::default(),
            batch_size: None,
        },
        pipeline,
        sink: SinkSpec {
            kind: "jsonl".to_string(),
            uri: "out".to_string(),
            mode: "overwrite".to_string(),
            shard_key: None,
            samples_per_shard: 0,
            shard_name_pattern: None,
            enable_trace: true,
        },
    }
}

#[test]
fn a_configuration_is_read_by_key_and_kind() {
    let config = yaml("{col: text, n: 7, flag: true, neg: -1, list: [1]}");
    assert_eq!(str_field(&config, "col"), Some("text".to_string()));
    assert_eq!(str_field(&config, "n"), None);
    assert_eq!(str_field(&config, "missing"), None);
    assert_eq!(u64_field(&config, "n"), Some(7));
    assert_eq!(u64_field(&config, "neg"), None);
    assert_eq!(u64_field(&config, "col"), None);
    assert_eq!(bool_field(&config, "flag"), Some(true));
    assert_eq!(bool_field(&config, "n"), None);
    assert_eq!(str_field(&yaml("just text"), "col"), None);
}

#[test]
fn a_node_is_read_in_both_forms() {
    let short = OperatorNode::from_yaml(&yaml("text_len_filter: {text_col: t, lower_bound: 2}")).ok().unwrap();
    assert_eq!(short.name, "text_len_filter");
    assert_eq!(short.config, yaml("{text_col: t, lower_bound: 2}"));
    let long = OperatorNode::from_yaml(&yaml("{name: add_id, config: {id_col: uid}}")).ok().unwrap();
    assert_eq!(long.name, "add_id");
    assert_eq!(long.config, yaml("{id_col: uid}"));
    let name_only = OperatorNode::from_yaml(&yaml("{name: {a: 1}}")).ok().unwrap();
    assert_eq!(name_only.name, "name");
    assert_eq!(name_only.config, yaml("{a: 1}"));
}

#[test]
fn a_malformed_node_is_refused() {
    assert!(matches!(OperatorNode::from_yaml(&yaml("just_a_name")), Err(NodeError::NotAMapping)));
    assert!(matches!(OperatorNode::from_yaml(&yaml("[a, b]")), Err(NodeError::NotAMapping)));
    assert!(matches!(OperatorNode::from_yaml(&yaml("{}")), Err(NodeError::Shape)));
    assert!(matches!(OperatorNode::from_yaml(&yaml("{a: 1, b: 2}")), Err(NodeError::Shape)));
    assert!(matches!(OperatorNode::from_yaml(&yaml("{name: x, other: 2}")), Err(NodeError::Shape)));
    assert!(matches!(OperatorNode::from_yaml(&yaml("{name: 5, config: {}}")), Err(NodeError::Shape)));
    assert!(matches!(OperatorNode::from_yaml(&yaml("{7: {a: 1}}")), Err(NodeError::NameNotAString)));
}

#[test]
fn the_length_filter_keeps_texts_within_its_bounds() {
    let filter = TextLenFilter::new("text".to_string(), Some(2), Some(4));
    assert!(filter.process(with_text("a")).ok().unwrap().is_none());
    assert_eq!(kept(filter.process(with_text("ab"))).get_str("text"), Some("ab"));
    assert!(filter.process(with_text("äöüß")).ok().unwrap().is_some());
    assert!(filter.process(with_text("abcde")).ok().unwrap().is_none());
    assert!(filter.process(Sample::new()).is_err());
    let mut number = Sample::new();
    number.set_i64("text", 5);
    assert!(filter.process(number).is_err());
    let only_upper = TextLenFilter::new("text".to_string(), None, Some(0));
    assert!(only_upper.process(with_text("")).ok().unwrap().is_some());
    assert!(only_upper.process(with_text("x")).ok().unwrap().is_none());
}

#[test]
fn the_length_filter_without_bounds_keeps_everything() {
    let filter = TextLenFilter::new("text".to_string(), None, None);
    assert!(filter.process(Sample::new()).ok().unwrap().is_some());
    assert!(filter.process(with_text("anything")).ok().unwrap().is_some());
}

#[test]
fn the_length_filter_is_configured_by_column_and_bounds() {
    let filter = TextLenFilter::from_config(&yaml("{text_col: body, lower_bound: 3}")).ok().unwrap();
    let mut s = Sample::new();
    s.set_str("body", "ab");
    assert!(filter.process(s).ok().unwrap().is_none());
    let mut t = Sample::new();
    t.set_str("body", "a long text");
    assert!(filter.process(t).ok().unwrap().is_some());
    assert_eq!(TextLenFilter::from_config(&yaml("{lower_bound: 3}")).err().unwrap().message, "text_col is required");
    let wrapped = TextLenFilter::from_config(&yaml("{text_col: text, upper_bound: 4294967297}")).ok().unwrap();
    assert!(wrapped.process(with_text("a")).ok().unwrap().is_some());
    assert!(wrapped.process(with_text("ab")).ok().unwrap().is_none());
}

#[test]
fn the_normal_form_of_a_text() {
    assert_eq!(normalize_text("  Hello World \n", true, true), "hello world");
    assert_eq!(normalize_text("  Hello World \n", true, false), "Hello World");
    assert_eq!(normalize_text("  Hello World \n", false, true), "  hello world \n");
    assert_eq!(normalize_text("  Hello World \n", false, false), "  Hello World \n");
    assert_eq!(normalize_text("\u{2003}ÄÖÜ ΣΑΣ\u{a0}", true, true), "äöü σας");
}

#[test]
fn the_normalizer_replaces_the_text_in_place() {
    let normalizer = NormalizeTransformer::new("text".to_string(), true, true);
    let mut s = with_text("  MiXed  ");
    s.set_i64("id", 3);
    let out = kept(normalizer.process(s));
    assert_eq!(out.get_str("text"), Some("mixed"));
    assert_eq!(out.get_i64("id"), Some(3));
    assert!(normalizer.process(Sample::new()).is_err());
    let configured = NormalizeTransformer::from_config(&yaml("{text_col: text, strip: true}")).ok().unwrap();
    assert_eq!(kept(configured.process(with_text(" Ab "))).get_str("text"), Some("Ab"));
    assert!(NormalizeTransformer::from_config(&yaml("{strip: true}")).is_err());
}

#[test]
fn the_annotator_gives_every_record_a_fresh_identifier() {
    let annotator = AddIdAnnotator::from_config(&yaml("{}"));
    let a = kept(annotator.process(with_text("x")));
    let b = kept(annotator.process(with_text("x")));
    let id = a.get_str("id").unwrap().to_string();
    assert_eq!(id.len(), 36);
    assert_eq!(id.chars().filter(|c| *c == '-').count(), 4);
    assert_eq!(id.chars().nth(14), Some('4'));
    assert_ne!(a.get_str("id"), b.get_str("id"));
    assert_eq!(a.get_str("text"), Some("x"));
    let named = AddIdAnnotator::from_config(&yaml("{id_col: uid}"));
    assert!(kept(named.process(Sample::new())).get_str("uid").is_some());
    let fixed = AddIdAnnotator::new("k".to_string()).annotate(with_text("x"), "abc");
    assert_eq!(fixed.get_str("k"), Some("abc"));
    assert_eq!(fixed.get_str("text"), Some("x"));
}

#[test]
fn symbols_and_words_are_counted() {
    let counter = SymbolCounter::new("text".to_string()).ok().unwrap();
    assert_eq!(counter.counts(&with_text("a # b ... c . . . d \u{2026} e")).ok().unwrap(), (4, 11));
    assert_eq!(counter.counts(&with_text("....")).ok().unwrap(), (1, 1));
    assert_eq!(counter.counts(&with_text("## plain words")).ok().unwrap(), (2, 3));
    assert_eq!(counter.counts(&with_text("")).ok().unwrap(), (0, 1));
    assert!(counter.counts(&Sample::new()).is_err());
}

#[test]
fn words_are_runs_between_white_space_bytes() {
    assert_eq!(count_words(""), 1);
    assert_eq!(count_words("   "), 1);
    assert_eq!(count_words("one"), 1);
    assert_eq!(count_words(" one\ttwo\r\nthree  "), 3);
    assert_eq!(count_words("a\u{a0}b"), 1);
    assert_eq!(count_words("ä ö"), 2);
}

#[test]
fn the_pass_through_filters_keep_every_record() {
    assert!(GopherQualityFilter::new().process(Sample::new()).ok().unwrap().is_some());
    assert!(GopherRepetitionFilter::new().process(with_text("x")).ok().unwrap().is_some());
    assert_eq!(kept(FastTextClassifierFilter::new().process(with_text("x"))).get_str("text"), Some("x"));
}

#[test]
fn every_operator_of_the_library_is_registered_under_its_name() {
    let mut registry = OperatorRegistry::new();
    assert!(register_all(&mut registry).is_ok());
    for name in [
        "add_id",
        "text_len_filter",
        "text_normalize_transformer",
        "text.gopher_quality_filter",
        "text.gopher_repetition_filter",
        "text.fasttext_classifier_filter",
    ] {
        assert!(registry.contains(name), "{name}");
    }
    assert!(!registry.contains("numeric_range_filter"));
    assert!(matches!(registry.build("text_len_filter", &yaml("{text_col: t}")), Ok(BuiltinOperator::TextLen(_))));
    assert!(matches!(registry.build("add_id", &yaml("{}")), Ok(BuiltinOperator::AddId(_))));
    assert!(matches!(
        registry.build("text_normalize_transformer", &yaml("{}")),
        Err(BuildError::ConfigError { .. })
    ));
    assert_eq!(BuiltinFactory::GopherQuality.name(), "text.gopher_quality_filter");
    let mut one = OperatorRegistry::new();
    register(&mut one, BuiltinFactory::Normalize);
    assert!(one.contains("text_normalize_transformer"));
    assert!(!one.contains("add_id"));
    assert!(matches!(BuiltinFactory::FastTextClassifier.create(&yaml("{}")), Ok(BuiltinOperator::FastTextClassifier(_))));
}

#[test]
fn a_pipeline_of_library_operators_runs_from_its_file() {
    let mut registry = OperatorRegistry::new();
    register_all(&mut registry).ok().unwrap();
    let nodes = vec![
        OperatorNode::from_yaml(&yaml("text_normalize_transformer: {text_col: text, strip: true, lowercase: true}")).ok().unwrap(),
        OperatorNode::from_yaml(&yaml("text_len_filter: {text_col: text, lower_bound: 3}")).ok().unwrap(),
        OperatorNode::from_yaml(&yaml("add_id: {id_col: uid}")).ok().unwrap(),
    ];
    let plan = Plan::compile(spec(nodes), &registry).ok().unwrap();
    let mut run = plan.begin();
    let out = plan.run_batch(&mut run, vec![Ok(with_text("  AB  ")), Ok(with_text(" Long Enough ")), Ok(Sample::new())]);
    match &out[0] {
        Delivery::Trace { step, sample, .. } => {
            assert_eq!(*step, 1);
            assert_eq!(sample.get_str("text"), Some("ab"));
            assert!(!sample.has("uid"));
        }
        _ => panic!("the short text is dropped by the length filter"),
    }
    match &out[1] {
        Delivery::Final { sample, .. } => {
            assert_eq!(sample.get_str("text"), Some("long enough"));
            assert!(sample.has("uid"));
        }
        _ => panic!("the long text survives"),
    }
    assert!(matches!(out[2], Delivery::Trace { step: 0, .. }));
}

#[test]
fn operators_of_many_types_run_behind_a_pointer() {
    let operators = vec![
        ("len".to_string(), DynOperator(Box::new(TextLenFilter::new("text".to_string(), Some(1), None)))),
        ("id".to_string(), DynOperator(Box::new(AddIdAnnotator::new("id".to_string())))),
    ];
    let plan = Plan::from_operators(operators, spec(Vec::new()));
    let mut run = plan.begin();
    assert!(matches!(plan.step(&mut run, Ok(with_text("x"))), Delivery::Final { .. }));
    assert!(matches!(plan.step(&mut run, Ok(with_text(""))), Delivery::Trace { step: 0, .. }));
}

#[test]
fn a_counter_is_made_of_what_compiling_gave() {
    let letters = regex::Regex::new("a+").ok();
    let counter = SymbolCounter::from_compiled("text".to_string(), letters).ok().unwrap();
    assert_eq!(counter.counts(&with_text("aa b a")).ok().unwrap(), (2, 3));
    let refused = SymbolCounter::from_compiled("text".to_string(), regex::Regex::new("(").ok());
    assert_eq!(refused.err().unwrap().message, "invalid symbol pattern");
    assert!(SymbolCounter::new("text".to_string()).is_ok());
}

#[test]
fn the_normalizer_leaves_the_other_columns_as_they_were() {
    let normalizer = NormalizeTransformer::new("text".to_string(), true, true);
    let input: serde_json::Value = serde_json::from_str(r#"{"text": "  Hi ", "x": 0.25, "tags": ["A", " b "]}"#).unwrap();
    let out = kept(normalizer.process(Sample::from_value(input).unwrap()));
    let expected: serde_json::Value = serde_json::from_str(r#"{"text": "hi", "x": 0.25, "tags": ["A", " b "]}"#).unwrap();
    assert_eq!(out.into_value(), expected);
    let again = kept(normalizer.process(Sample::from_value(expected.clone()).unwrap()));
    assert_eq!(again.into_value(), expected);
}
