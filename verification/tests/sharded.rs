use fdf::io::writer::pattern::{expand_pattern, join_path};
use fdf::io::writer::sharded::{ShardError, ShardedWriter};
use fdf::sample::Sample;

fn chars(s: &str) -> Vec<char> {
    s.chars().collect()
}

fn text(v: Vec<char>) -> String {
    v.into_iter().collect()
}

fn expand(pattern: &str, ext: &str, id: usize) -> String {
    text(expand_pattern(&chars(pattern), &chars(ext), id))
}

fn keyed(lang: &str) -> Sample {
    let mut s = Sample::new();
    s.set_str("lang", lang);
    s
}

#[test]
fn twenty_five_records_fill_three_shards() {
    let mut writer = ShardedWriter::new("out/final", None, 10, None).ok().unwrap();
    let mut counts = vec![0usize; 3];
    let mut opened = Vec::new();
    for k in 0..25usize {
        let p = writer.write_sample(&Sample::new()).ok().unwrap();
        assert_eq!(p.shard_id, k / 10);
        assert_eq!(p.first, k % 10 == 0);
        if p.first {
            opened.push(p.path.clone());
        }
        counts[p.shard_id] += 1;
    }
    assert_eq!(counts, vec![10, 10, 5]);
    assert_eq!(
        opened,
        vec![
            "out/final/part-00000000.jsonl".to_string(),
            "out/final/part-00000001.jsonl".to_string(),
            "out/final/part-00000002.jsonl".to_string(),
        ]
    );
    assert_eq!(writer.opened_shards(), vec![0, 1, 2]);
}

#[test]
fn a_full_last_shard_opens_no_empty_one() {
    let mut writer = ShardedWriter::new("d", None, 3, None).ok().unwrap();
    let ids: Vec<usize> = (0..6).map(|_| writer.determine_shard_id(&Sample::new()).ok().unwrap()).collect();
    assert_eq!(ids, vec![0, 0, 0, 1, 1, 1]);
    assert_eq!(writer.opened_shards(), Vec::<usize>::new());
}

#[test]
fn without_a_limit_every_record_gets_a_shard_of_its_own() {
    let mut writer = ShardedWriter::new("d", None, 0, None).ok().unwrap();
    let ids: Vec<usize> = (0..4).map(|_| writer.write_sample(&Sample::new()).ok().unwrap().shard_id).collect();
    assert_eq!(ids, vec![1, 2, 3, 4]);
}

#[test]
fn records_of_one_key_occupy_a_contiguous_run_of_shards() {
    let mut writer = ShardedWriter::new("d", Some("lang".to_string()), 2, None).ok().unwrap();
    let mut en = Vec::new();
    let mut de = Vec::new();
    for k in 0..7 {
        en.push(writer.write_sample(&keyed("en")).ok().unwrap().shard_id);
        if k % 2 == 0 {
            de.push(writer.write_sample(&keyed("de")).ok().unwrap().shard_id);
        }
    }
    let base = en[0];
    assert!(base < 1000);
    assert_eq!(en, vec![base, base, base + 1, base + 1, base + 2, base + 2, base + 3]);
    let other = de[0];
    assert!(other < 1000);
    assert_eq!(de, vec![other, other, other + 1, other + 1]);
}

#[test]
fn a_record_without_the_key_is_placed_in_sequence() {
    let mut writer = ShardedWriter::new("d", Some("lang".to_string()), 2, None).ok().unwrap();
    let mut not_text = Sample::new();
    not_text.set_i64("lang", 7);
    let a = writer.write_sample(&Sample::new()).ok().unwrap().shard_id;
    let _ = writer.write_sample(&keyed("en")).ok().unwrap();
    let b = writer.write_sample(&not_text).ok().unwrap().shard_id;
    let c = writer.write_sample(&Sample::new()).ok().unwrap().shard_id;
    assert_eq!(vec![a, b, c], vec![0, 0, 1]);
}

#[test]
fn a_shard_key_needs_a_limit() {
    assert!(matches!(
        ShardedWriter::new("d", Some("lang".to_string()), 0, None),
        Err(ShardError::KeyWithoutLimit)
    ));
    assert!(ShardedWriter::new("d", None, 0, None).is_ok());
}

#[test]
fn the_extension_follows_the_pattern() {
    let parquet = ShardedWriter::new("d", None, 5, Some("p-{shard_id}.parquet".to_string())).ok().unwrap();
    assert_eq!(parquet.get_shard_path(12), "d/p-12.parquet");
    let with_ext = ShardedWriter::new("out", None, 5, Some("part-{shard_id:04}.{ext}".to_string())).ok().unwrap();
    assert_eq!(with_ext.get_shard_path(3), "out/part-0003.jsonl");
    let as_parquet = ShardedWriter::new("out", None, 5, Some("{shard_id}.{ext}.parquet".to_string())).ok().unwrap();
    assert_eq!(as_parquet.get_shard_path(3), "out/3.parquet.parquet");
    let json = ShardedWriter::new("", None, 5, Some("{ext}-{shard_id:2}.json".to_string())).ok().unwrap();
    assert_eq!(json.get_shard_path(3), "json-03.json");
    let default = ShardedWriter::new("out/", None, 5, None).ok().unwrap();
    assert_eq!(default.get_shard_path(7), "out/part-00000007.jsonl");
}

#[test]
fn closing_reports_data_and_names_the_empty_shards() {
    let writer = ShardedWriter::new("out", None, 10, None).ok().unwrap();
    let (any, remove) = writer.close(&vec![(0, true), (1, false), (2, true), (5, false)]);
    assert!(any);
    assert_eq!(remove, vec!["out/part-00000001.jsonl".to_string(), "out/part-00000005.jsonl".to_string()]);
    let (none, all) = writer.close(&vec![(0, false)]);
    assert!(!none);
    assert_eq!(all, vec!["out/part-00000000.jsonl".to_string()]);
    let (empty, nothing) = writer.close(&Vec::new());
    assert!(!empty);
    assert!(nothing.is_empty());
}

#[test]
fn placeholders_are_filled_from_left_to_right() {
    assert_eq!(expand("part-{shard_id:08}.{ext}", "jsonl", 1), "part-00000001.jsonl");
    assert_eq!(expand("part-{shard_id}.{ext}", "jsonl", 42), "part-42.jsonl");
    assert_eq!(expand("{shard_id:3}-{shard_id}-{shard_id:1}", "", 1234), "1234-1234-1234");
    assert_eq!(expand("{shard_id:3}", "", 7), "007");
    assert_eq!(expand("{shard_id:0}", "", 7), "7");
    assert_eq!(expand("", "x", 7), "");
    assert_eq!(expand("no placeholder", "x", 7), "no placeholder");
}

#[test]
fn what_is_no_placeholder_stands_for_itself() {
    assert_eq!(expand("{shard_id:}", "", 7), "{shard_id:}");
    assert_eq!(expand("{shard_id:x}", "", 7), "{shard_id:x}");
    assert_eq!(expand("{shard_id:12", "", 7), "{shard_id:12");
    assert_eq!(expand("{shard_id:99999999999999999999999}", "", 7), "{shard_id:99999999999999999999999}");
    assert_eq!(expand("{shard}", "", 7), "{shard}");
    assert_eq!(expand("{{ext}}", "e", 7), "{e}");
    assert_eq!(expand("{ext", "e", 7), "{ext");
}

#[test]
fn a_name_is_joined_to_its_directory() {
    assert_eq!(text(join_path(&chars("out"), &chars("f.jsonl"))), "out/f.jsonl");
    assert_eq!(text(join_path(&chars("out/"), &chars("f.jsonl"))), "out/f.jsonl");
    assert_eq!(text(join_path(&chars(""), &chars("f.jsonl"))), "f.jsonl");
    assert_eq!(text(join_path(&chars("out"), &chars("/abs/f"))), "/abs/f");
}
