//! Where the streams of a run live under the sink: a directory per stream,
//! and in it a single file or a set of shards.

use vstd::prelude::*;
use crate::plan::Sink;
use crate::spec::SinkSpec;
use crate::text::{chars_of, has_suffix, replace_all, replaced, str_eq, string_of, trim_end, trimmed_end, zero_padded, zero_padded_digits};

verus! {

/// `std::path::Path::file_name` of a location, as text where it is Unicode.
#[verifier::external_body]
fn path_file_name(location: &str) -> Option<String> {
    std::path::Path::new(location).file_name().and_then(|n| n.to_str()).map(|s| s.to_string())
}

/// The name of the output files, from the name of the first input file:
/// the input name (`file.jsonl` where there is none) with the extensions
/// `.parquet` and `.jsonl` replaced by that of the output, which is
/// `.parquet` where the sink's kind or the input name says so and `.jsonl`
/// otherwise.
pub open spec fn output_name(input_name: Option<Seq<char>>, sink_kind: Seq<char>) -> Seq<char> {
    let name = match input_name {
        Some(n) => n,
        None => "file.jsonl"@,
    };
    let extension = if sink_kind == "parquet"@ || has_suffix(name, ".parquet"@) {
        ".parquet"@
    } else {
        ".jsonl"@
    };
    replaced(replaced(name, ".parquet"@, extension), ".jsonl"@, extension)
}

/// The directory of a stream under the sink: `final`, `error`, or
/// `trace/step_NN` with the step number in two digits or more.
pub open spec fn stream_dir(sink_uri: Seq<char>, sink: Sink) -> Seq<char> {
    let base = trimmed_end(sink_uri, '/');
    match sink {
        Sink::Final => base + "/final"@,
        Sink::Error => base + "/error"@,
        Sink::Trace(i) => base + "/trace/step_"@ + zero_padded(i as nat, 2),
    }
}

/// Whether a stream is written as shards: the error stream never is, the
/// others are where the sink has a number of records per shard.
pub open spec fn stream_sharded(parent: SinkSpec, sink: Sink) -> bool {
    sink != Sink::Error && parent.samples_per_shard > 0
}

/// The location of a stream: its directory where it is sharded, else the
/// output file in its directory.
pub open spec fn stream_uri(parent: SinkSpec, sink: Sink, file_name: Seq<char>) -> Seq<char> {
    if stream_sharded(parent, sink) {
        stream_dir(parent.uri@, sink)
    } else {
        stream_dir(parent.uri@, sink).push('/') + file_name
    }
}

/// The name of the output files from the name of the first input file.
pub fn output_file_name(input_name: Option<&str>, sink_kind: &str) -> (r: String)
    ensures
        r@ == output_name(
            match input_name {
                Some(n) => Some(n@),
                None => None,
            },
            sink_kind@,
        ),
{
    let name: Vec<char> = match input_name {
        Some(n) => chars_of(n),
        None => chars_of("file.jsonl"),
    };
    let parquet = chars_of(".parquet");
    let jsonl = chars_of(".jsonl");
    let to_parquet = str_eq(sink_kind, "parquet") || crate::text::ends_with(&name, &parquet);
    let extension = if to_parquet {
        chars_of(".parquet")
    } else {
        chars_of(".jsonl")
    };
    let first = replace_all(&name, &parquet, &extension);
    let second = replace_all(&first, &jsonl, &extension);
    string_of(&second)
}

/// The name of the output files of a run that reads `source_uri` first.
pub fn file_name_for(source_uri: &str, sink_kind: &str) -> (r: String)
    ensures
        exists|input_name: Option<Seq<char>>| r@ == #[trigger] output_name(input_name, sink_kind@),
{
    let input_name = path_file_name(source_uri);
    let r = match &input_name {
        Some(n) => output_file_name(Some(n.as_str()), sink_kind),
        None => output_file_name(None, sink_kind),
    };
    proof {
        let witness: Option<Seq<char>> = match input_name {
            Some(n) => Some(n@),
            None => None,
        };
        assert(r@ == output_name(witness, sink_kind@));
    }
    r
}

/// The directory of a stream under the sink.
pub fn stream_directory(sink_uri: &str, sink: Sink) -> (r: String)
    ensures
        r@ == stream_dir(sink_uri@, sink),
{
    let uri = chars_of(sink_uri);
    let mut out = trim_end(&uri, '/');
    match sink {
        Sink::Final => {
            let tail = chars_of("/final");
            out.extend_from_slice(tail.as_slice());
        },
        Sink::Error => {
            let tail = chars_of("/error");
            out.extend_from_slice(tail.as_slice());
        },
        Sink::Trace(i) => {
            let tail = chars_of("/trace/step_");
            out.extend_from_slice(tail.as_slice());
            let digits = zero_padded_digits(i, 2);
            out.extend_from_slice(digits.as_slice());
        },
    }
    string_of(&out)
}

/// The sink of one stream of a run: the parent's format, the stream's
/// location, no shard key and no tracing; the parent's shard size and
/// pattern, except for the error stream, which is one file.
pub fn stream_sink(parent: &SinkSpec, sink: Sink, file_name: &str) -> (r: SinkSpec)
    ensures
        r.kind@ == parent.kind@,
        r.uri@ == stream_uri(*parent, sink, file_name@),
        r.mode@ == "overwrite"@,
        r.shard_key is None,
        !r.enable_trace,
        r.samples_per_shard == (if sink == Sink::Error {
            0
        } else {
            parent.samples_per_shard
        }),
        sink == Sink::Error ==> r.shard_name_pattern is None,
        sink != Sink::Error ==> r.shard_name_pattern == parent.shard_name_pattern,
{
    let dir = stream_directory(parent.uri.as_str(), sink);
    let is_error = sink == Sink::Error;
    let sharded = !is_error && parent.samples_per_shard > 0;
    let uri = if sharded {
        dir
    } else {
        let mut chars = chars_of(dir.as_str());
        chars.push('/');
        let name = chars_of(file_name);
        chars.extend_from_slice(name.as_slice());
        string_of(&chars)
    };
    let pattern: Option<String> = if is_error {
        None
    } else {
        match &parent.shard_name_pattern {
            Some(p) => Some(p.clone()),
            None => None,
        }
    };
    SinkSpec {
        kind: parent.kind.clone(),
        uri,
        mode: "overwrite".to_string(),
        shard_key: None,
        samples_per_shard: if is_error {
            0
        } else {
            parent.samples_per_shard
        },
        shard_name_pattern: pattern,
        enable_trace: false,
    }
}

/// The file to remove after a stream's writer closed: where the writer
/// reported no data and the stream is one file, that file.
pub fn stale_file(parent: &SinkSpec, sink: Sink, file_name: &str, has_data: bool) -> (r: Option<String>)
    ensures
        match r {
            Some(path) => !has_data && !stream_sharded(*parent, sink) && path@ == stream_uri(
                *parent,
                sink,
                file_name@,
            ),
            None => has_data || stream_sharded(*parent, sink),
        },
{
    let sharded = sink != Sink::Error && parent.samples_per_shard > 0;
    if has_data || sharded {
        None
    } else {
        let dir = stream_directory(parent.uri.as_str(), sink);
        let mut chars = chars_of(dir.as_str());
        chars.push('/');
        let name = chars_of(file_name);
        chars.extend_from_slice(name.as_slice());
        Some(string_of(&chars))
    }
}

} // verus!
