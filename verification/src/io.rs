//! Choosing readers and writers from the source and sink of a pipeline.

pub mod reader;
pub mod writer;

use vstd::prelude::*;
use crate::spec::{ColumnMapping, SinkSpec};
use crate::text::{has_prefix, has_suffix, str_ends_with, str_eq, str_starts_with};

verus! {

/// Chooses how a source is read.
pub struct ReaderFactory;

/// Chooses how a sink is written.
pub struct WriterFactory;

/// A file format that the engine reads and writes.
#[derive(Clone, Copy, PartialEq, Eq, Structural, Debug)]
pub enum Format {
    Parquet,
    Jsonl,
}

/// How the readers of a source are put together.
#[derive(Clone, Copy, PartialEq, Eq, Structural, Debug)]
pub enum Arrangement {
    /// The one reader is used as it is.
    Single,
    /// The readers are read one after the other.
    Sequence,
}

/// Why a source cannot be read.
#[derive(Clone, Copy, PartialEq, Eq, Structural, Debug)]
pub enum SourceError {
    /// The source resolves to no file.
    NoFiles,
    /// A location of the source is neither a file nor a directory.
    DoesNotExist,
}

/// What a location of a source is.
#[derive(Clone, Copy, PartialEq, Eq, Structural, Debug)]
pub enum Location {
    /// A file of the remote hub, to be downloaded.
    Hub,
    /// A directory, whose files of the source's kind are read.
    Directory,
    /// A file.
    File,
}

/// How a sink is laid out.
pub enum WriterLayout {
    /// A directory of shard files named by `pattern`.
    Sharded { format: Format, pattern: String },
    /// One file.
    Single { format: Format },
}

/// Whether the kind or the location of a source or sink says Parquet.
pub open spec fn says_parquet(kind: Seq<char>, location: Seq<char>) -> bool {
    kind == "parquet"@ || has_suffix(location, ".parquet"@)
}

/// Whether the kind or the location of a source or sink says JSON lines.
pub open spec fn says_jsonl(kind: Seq<char>, location: Seq<char>) -> bool {
    kind == "jsonl"@ || kind == "json"@ || has_suffix(location, ".jsonl"@) || has_suffix(
        location,
        ".json"@,
    )
}

/// The format of a file: Parquet where kind or extension says so, JSON lines
/// where they say so, and Parquet where they say nothing.
pub open spec fn format_for(kind: Seq<char>, location: Seq<char>) -> Format {
    if says_parquet(kind, location) {
        Format::Parquet
    } else if says_jsonl(kind, location) {
        Format::Jsonl
    } else {
        Format::Parquet
    }
}

/// Whether a location ends in the extension of a single file.
pub open spec fn names_a_file(location: Seq<char>) -> bool {
    has_suffix(location, ".parquet"@) || has_suffix(location, ".jsonl"@) || has_suffix(
        location,
        ".json"@,
    )
}

/// Whether a sink location is a directory of shards: every location that
/// does not end in the extension of a file.
pub open spec fn is_shard_directory(location: Seq<char>) -> bool {
    !names_a_file(location)
}

/// Whether files of extension `extension` (in lower case, without the dot)
/// are read from a directory of a source of kind `kind`.
pub open spec fn extension_read(kind: Seq<char>, extension: Seq<char>) -> bool {
    if kind == "parquet"@ {
        extension == "parquet"@
    } else if kind == "jsonl"@ || kind == "json"@ {
        extension == "jsonl"@ || extension == "json"@
    } else {
        extension == "parquet"@ || extension == "jsonl"@ || extension == "json"@
    }
}

/// The paths among the first `n` entries of a directory, given as pairs of
/// path and extension, whose extension is read for the source's kind.
pub open spec fn matching(entries: Seq<(String, String)>, kind: Seq<char>, n: int) -> Seq<Seq<char>>
    decreases n,
{
    if n <= 0 {
        Seq::empty()
    } else if extension_read(kind, entries[n - 1].1@) {
        matching(entries, kind, n - 1).push(entries[n - 1].0@)
    } else {
        matching(entries, kind, n - 1)
    }
}

/// The views of a vector of strings.
pub open spec fn string_views(items: Seq<String>) -> Seq<Seq<char>> {
    items.map_values(|t: String| t@)
}

fn format_of_location(kind: &str, location: &str) -> (r: Format)
    ensures
        r == format_for(kind@, location@),
{
    if str_eq(kind, "parquet") || str_ends_with(location, ".parquet") {
        Format::Parquet
    } else if str_eq(kind, "jsonl") || str_eq(kind, "json") || str_ends_with(location, ".jsonl")
        || str_ends_with(location, ".json") {
        Format::Jsonl
    } else {
        Format::Parquet
    }
}

impl ReaderFactory {
    /// Whether a source of this kind is a dataset of the remote hub.
    pub fn reads_hub(kind: &str) -> (r: bool)
        ensures
            r == (kind@ == "huggingface"@ || kind@ == "hf"@),
    {
        str_eq(kind, "huggingface") || str_eq(kind, "hf")
    }

    /// Whether a location is a file of the remote hub.
    pub fn is_hub_uri(uri: &str) -> (r: bool)
        ensures
            r == has_prefix(uri@, "hf://"@),
    {
        str_starts_with(uri, "hf://")
    }

    /// What a location of the source is, from what the file system says of
    /// it: a location of the hub is not looked up; a location that does not
    /// exist is refused.
    pub fn locate(uri: &str, is_dir: bool, present: bool) -> (r: Result<Location, SourceError>)
        ensures
            r == (if has_prefix(uri@, "hf://"@) {
                Ok::<Location, SourceError>(Location::Hub)
            } else if is_dir {
                Ok::<Location, SourceError>(Location::Directory)
            } else if present {
                Ok::<Location, SourceError>(Location::File)
            } else {
                Err::<Location, SourceError>(SourceError::DoesNotExist)
            }),
    {
        if str_starts_with(uri, "hf://") {
            Ok(Location::Hub)
        } else if is_dir {
            Ok(Location::Directory)
        } else if present {
            Ok(Location::File)
        } else {
            Err(SourceError::DoesNotExist)
        }
    }

    /// The format that a file of the source is read in.
    pub fn format_of(kind: &str, file_path: &str) -> (r: Format)
        ensures
            r == format_for(kind@, file_path@),
    {
        format_of_location(kind, file_path)
    }

    /// Whether a file with this extension is read from a directory of the source.
    pub fn accepts_extension(kind: &str, extension: &str) -> (r: bool)
        ensures
            r == extension_read(kind@, extension@),
    {
        let parquet = str_eq(extension, "parquet");
        let jsonl = str_eq(extension, "jsonl") || str_eq(extension, "json");
        if str_eq(kind, "parquet") {
            parquet
        } else if str_eq(kind, "jsonl") || str_eq(kind, "json") {
            jsonl
        } else {
            parquet || jsonl
        }
    }

    /// The files of a directory that are read for a source of kind `kind`:
    /// of the entries, given as pairs of path and extension (in lower case,
    /// without the dot), the paths whose extension is read, in the order of
    /// strings.
    pub fn select_files(entries: &Vec<(String, String)>, kind: &str) -> (r: Vec<String>)
        ensures
            crate::text::ascending(string_views(r@)),
            string_views(r@).to_multiset() == matching(entries@, kind@, entries@.len() as int).to_multiset(),
    {
        let mut chosen: Vec<Vec<char>> = Vec::new();
        let mut i: usize = 0;
        assert(crate::text::views(chosen@) =~= Seq::<Seq<char>>::empty());
        while i < entries.len()
            invariant
                i <= entries@.len(),
                crate::text::views(chosen@) == matching(entries@, kind@, i as int),
            decreases entries@.len() - i,
        {
            let ghost before = crate::text::views(chosen@);
            if Self::accepts_extension(kind, entries[i].1.as_str()) {
                let path = crate::text::chars_of(entries[i].0.as_str());
                chosen.push(path);
                assert(crate::text::views(chosen@) =~= before.push(entries@[i as int].0@));
            }
            i += 1;
        }
        let sorted = crate::text::sort_texts(&chosen);
        let mut out: Vec<String> = Vec::new();
        let mut k: usize = 0;
        while k < sorted.len()
            invariant
                k <= sorted@.len(),
                out@.len() == k,
                forall|j: int| 0 <= j < k ==> (#[trigger] out@[j])@ == sorted@[j]@,
            decreases sorted@.len() - k,
        {
            out.push(crate::text::string_of(&sorted[k]));
            k += 1;
        }
        assert(string_views(out@) =~= crate::text::views(sorted@));
        out
    }

    /// Whether the source's columns are projected before records enter the pipeline.
    pub fn projects(columns: &ColumnMapping) -> (r: bool)
        ensures
            r == (columns.mapping@.len() > 0),
    {
        columns.mapping.len() > 0
    }

    /// How `readers` readers are put together; a source without files is refused.
    pub fn arrange(readers: usize) -> (r: Result<Arrangement, SourceError>)
        ensures
            r == (if readers == 0 {
                Err::<Arrangement, SourceError>(SourceError::NoFiles)
            } else if readers == 1 {
                Ok::<Arrangement, SourceError>(Arrangement::Single)
            } else {
                Ok::<Arrangement, SourceError>(Arrangement::Sequence)
            }),
    {
        if readers == 0 {
            Err(SourceError::NoFiles)
        } else if readers == 1 {
            Ok(Arrangement::Single)
        } else {
            Ok(Arrangement::Sequence)
        }
    }
}

impl WriterFactory {
    /// The shard pattern of a sink: its own, or `part-{shard_id:08}` with the
    /// extension of its format.
    pub open spec fn pattern_for(spec: SinkSpec) -> Seq<char> {
        match spec.shard_name_pattern {
            Some(p) => p@,
            None => if says_parquet(spec.kind@, spec.uri@) {
                "part-{shard_id:08}.parquet"@
            } else {
                "part-{shard_id:08}.jsonl"@
            },
        }
    }

    /// How the sink is laid out: one file where its location ends in
    /// `.parquet`, `.jsonl` or `.json`, else a directory of shards.
    pub fn layout(spec: &SinkSpec) -> (r: WriterLayout)
        ensures
            match r {
                WriterLayout::Sharded { format, pattern } => {
                    &&& is_shard_directory(spec.uri@)
                    &&& format == (if says_parquet(spec.kind@, spec.uri@) {
                        Format::Parquet
                    } else {
                        Format::Jsonl
                    })
                    &&& pattern@ == Self::pattern_for(*spec)
                },
                WriterLayout::Single { format } => {
                    &&& !is_shard_directory(spec.uri@)
                    &&& format == format_for(spec.kind@, spec.uri@)
                },
            },
    {
        let uri = spec.uri.as_str();
        let kind = spec.kind.as_str();
        let is_parquet = str_eq(kind, "parquet") || str_ends_with(uri, ".parquet");
        let names_file = str_ends_with(uri, ".parquet") || str_ends_with(uri, ".jsonl") || str_ends_with(
            uri,
            ".json",
        );
        let is_directory = !names_file;
        if is_directory {
            let pattern = match &spec.shard_name_pattern {
                Some(p) => p.clone(),
                None => if is_parquet {
                    "part-{shard_id:08}.parquet".to_string()
                } else {
                    "part-{shard_id:08}.jsonl".to_string()
                },
            };
            let format = if is_parquet {
                Format::Parquet
            } else {
                Format::Jsonl
            };
            WriterLayout::Sharded { format, pattern }
        } else {
            WriterLayout::Single { format: format_of_location(kind, uri) }
        }
    }
}

} // verus!
