use fdf::layout::{file_name_for, output_file_name, stale_file, stream_directory, stream_sink};
use fdf::plan::{ProcessingStatistics, Sink, StepStatistics};
use fdf::runner::{estimate_read_time, with_read_time};
use fdf::spec::SinkSpec;

fn sink(uri: &str, samples_per_shard: usize) -> SinkSpec {
    SinkSpec {
        kind: "parquet".to_string(),
        uri: uri.to_string(),
        mode: "append".to_string(),
        shard_key: Some("lang".to_string()),
        samples_per_shard,
        shard_name_pattern: Some("p-{shard_id}.parquet".to_string()),
        enable_trace: true,
    }
}

fn stats(times: &[u64], write_time_ms: u64) -> ProcessingStatistics {
    ProcessingStatistics {
        num_documents: 0,
        step_statistics: times
            .iter()
            .enumerate()
            .map(|(i, t)| StepStatistics {
                step_name: format!("s{i}"),
                step_index: i,
                processing_time_ms: *t,
                documents_removed: 0,
                documents_remaining_before: 0,
                total_documents: 0,
            })
            .collect(),
        read_time_ms: 0,
        write_time_ms,
    }
}

#[test]
fn the_output_takes_the_name_of_the_input_and_the_extension_of_the_sink() {
    assert_eq!(output_file_name(Some("data.jsonl"), "jsonl"), "data.jsonl");
    assert_eq!(output_file_name(Some("data.jsonl"), "parquet"), "data.parquet");
    assert_eq!(output_file_name(Some("data.parquet"), "jsonl"), "data.parquet");
    assert_eq!(output_file_name(Some("a.parquet.jsonl"), "jsonl"), "a.jsonl.jsonl");
    assert_eq!(output_file_name(Some("a.jsonl.parquet"), "jsonl"), "a.parquet.parquet");
    assert_eq!(output_file_name(Some("plain"), "parquet"), "plain");
    assert_eq!(output_file_name(None, "jsonl"), "file.jsonl");
    assert_eq!(output_file_name(None, "parquet"), "file.parquet");
}

#[test]
fn the_name_of_the_input_is_the_last_piece_of_its_location() {
    assert_eq!(file_name_for("data/in/part.jsonl", "jsonl"), "part.jsonl");
    assert_eq!(file_name_for("data/in/part.jsonl", "parquet"), "part.parquet");
    assert_eq!(file_name_for("..", "jsonl"), "file.jsonl");
}

#[test]
fn every_stream_has_its_directory() {
    assert_eq!(stream_directory("out", Sink::Final), "out/final");
    assert_eq!(stream_directory("out///", Sink::Error), "out/error");
    assert_eq!(stream_directory("out/", Sink::Trace(0)), "out/trace/step_00");
    assert_eq!(stream_directory("out", Sink::Trace(7)), "out/trace/step_07");
    assert_eq!(stream_directory("out", Sink::Trace(123)), "out/trace/step_123");
    assert_eq!(stream_directory("", Sink::Final), "/final");
}

#[test]
fn a_sharded_stream_lives_in_its_directory() {
    let s = stream_sink(&sink("out/", 100), Sink::Trace(3), "in.parquet");
    assert_eq!(s.kind, "parquet");
    assert_eq!(s.uri, "out/trace/step_03");
    assert_eq!(s.mode, "overwrite");
    assert_eq!(s.shard_key, None);
    assert_eq!(s.samples_per_shard, 100);
    assert_eq!(s.shard_name_pattern, Some("p-{shard_id}.parquet".to_string()));
    assert!(!s.enable_trace);
    assert_eq!(stream_sink(&sink("out", 100), Sink::Final, "in.parquet").uri, "out/final");
}

#[test]
fn a_stream_without_shards_is_one_file() {
    let s = stream_sink(&sink("out", 0), Sink::Final, "in.parquet");
    assert_eq!(s.uri, "out/final/in.parquet");
    assert_eq!(s.samples_per_shard, 0);
    assert_eq!(s.shard_name_pattern, Some("p-{shard_id}.parquet".to_string()));
    let e = stream_sink(&sink("out", 100), Sink::Error, "in.parquet");
    assert_eq!(e.uri, "out/error/in.parquet");
    assert_eq!(e.samples_per_shard, 0);
    assert_eq!(e.shard_name_pattern, None);
    assert_eq!(e.shard_key, None);
}

#[test]
fn the_file_of_a_stream_without_data_is_removed() {
    assert_eq!(stale_file(&sink("out", 0), Sink::Trace(1), "f.jsonl", false), Some("out/trace/step_01/f.jsonl".to_string()));
    assert_eq!(stale_file(&sink("out", 0), Sink::Final, "f.jsonl", true), None);
    assert_eq!(stale_file(&sink("out", 10), Sink::Final, "f.jsonl", false), None);
    assert_eq!(stale_file(&sink("out", 10), Sink::Error, "f.jsonl", false), Some("out/error/f.jsonl".to_string()));
    assert_eq!(stale_file(&sink("out", 10), Sink::Error, "f.jsonl", true), None);
}

#[test]
fn the_read_time_is_what_is_left_of_the_total() {
    assert_eq!(estimate_read_time(1000, &stats(&[100, 250], 50)), 600);
    assert_eq!(estimate_read_time(400, &stats(&[100, 250], 50)), 0);
    assert_eq!(estimate_read_time(399, &stats(&[100, 250], 50)), 0);
    assert_eq!(estimate_read_time(401, &stats(&[100, 250], 50)), 1);
    assert_eq!(estimate_read_time(10, &stats(&[], 0)), 10);
    assert_eq!(estimate_read_time(0, &stats(&[], 0)), 0);
    assert_eq!(estimate_read_time(u64::MAX, &stats(&[u64::MAX, u64::MAX], 1)), 0);
    assert_eq!(estimate_read_time(5, &stats(&[10, 0], 0)), 0);
}

#[test]
fn the_estimate_is_filled_into_the_statistics() {
    let filled = with_read_time(stats(&[100], 20), 500);
    assert_eq!(filled.read_time_ms, 380);
    assert_eq!(filled.write_time_ms, 20);
    assert_eq!(filled.step_statistics.len(), 1);
    assert_eq!(filled.step_statistics[0].processing_time_ms, 100);
}
