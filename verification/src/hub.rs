//! Naming files of the remote dataset hub: reading dataset identifiers, and
//! choosing the file of a split among those of a repository.

use vstd::prelude::*;
use crate::text::{chars_of, ends_with, first_at, find_from, has_prefix, has_suffix, less_than, lex_less, lowercase, lowercased, slice, starts_with, str_eq, string_of, trim_start, trimmed_start};

verus! {

/// What to fetch from the hub.
pub enum HubRequest {
    /// One file of a dataset, by its path in the repository.
    File { dataset_id: String, file_path: String },
    /// The file of a split of a dataset.
    Split { dataset_id: String, config: Option<String>, split: Option<String> },
}

/// What a request names.
pub enum HubRequestView {
    File { dataset_id: Seq<char>, file_path: Seq<char> },
    Split { dataset_id: Seq<char>, config: Option<Seq<char>>, split: Option<Seq<char>> },
}

/// Why a location on the hub could not be read.
#[derive(PartialEq, Eq, Structural, Clone, Copy, Debug)]
pub enum HubError {
    /// The location does not begin with `hf://datasets/`.
    NotADatasetUri,
    /// The location does not name an organisation, a dataset and a file.
    MissingFilePath,
}

impl View for HubRequest {
    type V = HubRequestView;

    open spec fn view(&self) -> HubRequestView {
        match self {
            HubRequest::File { dataset_id, file_path } => HubRequestView::File {
                dataset_id: dataset_id@,
                file_path: file_path@,
            },
            HubRequest::Split { dataset_id, config, split } => HubRequestView::Split {
                dataset_id: dataset_id@,
                config: match config {
                    Some(c) => Some(c@),
                    None => None,
                },
                split: match split {
                    Some(s) => Some(s@),
                    None => None,
                },
            },
        }
    }
}

/// The index of the separator that ends the piece beginning at `start`, or
/// the length of `s` where the piece is the last.
pub open spec fn piece_end(s: Seq<char>, start: int) -> int {
    start + first_at(s.skip(start), '/')
}

/// `organisation/dataset` and the path after them, where `s` has both.
pub open spec fn dataset_and_path(s: Seq<char>) -> Option<(Seq<char>, Seq<char>)> {
    let e0 = piece_end(s, 0);
    if e0 >= s.len() {
        None
    } else {
        let e1 = piece_end(s, e0 + 1);
        if e1 >= s.len() {
            None
        } else {
            Some((s.take(e1), s.skip(e1 + 1)))
        }
    }
}

/// A repository path without the prefix that links to a file carry:
/// `blob/main/`, or else `blob/master/`, as often as it is repeated.
pub open spec fn without_link_prefix(path: Seq<char>) -> Seq<char> {
    if has_prefix(path, "blob/main/"@) {
        trimmed_start(path, "blob/main/"@)
    } else {
        trimmed_start(path, "blob/master/"@)
    }
}

/// Whether a lowercased name is one of the usual names of a split.
pub open spec fn is_split_name(lower: Seq<char>) -> bool {
    lower == "train"@ || lower == "test"@ || lower == "val"@ || lower == "validation"@ || lower
        == "dev"@
}

/// What a dataset identifier asks for.
pub open spec fn request_of(uri: Seq<char>) -> Option<HubRequestView> {
    if has_suffix(uri, ".parquet"@) {
        match dataset_and_path(uri) {
            None => None,
            Some((id, path)) => Some(
                HubRequestView::File { dataset_id: id, file_path: without_link_prefix(path) },
            ),
        }
    } else {
        let e0 = piece_end(uri, 0);
        if e0 >= uri.len() {
            Some(HubRequestView::Split { dataset_id: uri, config: None, split: None })
        } else {
            let e1 = piece_end(uri, e0 + 1);
            if e1 >= uri.len() {
                Some(HubRequestView::Split { dataset_id: uri, config: None, split: None })
            } else {
                let e2 = piece_end(uri, e1 + 1);
                let id = uri.take(e1);
                let second = uri.subrange(e0 + 1, e1);
                let third = uri.subrange(e1 + 1, e2);
                if e2 >= uri.len() {
                    if is_split_name(lowercased(third)) {
                        Some(HubRequestView::Split { dataset_id: id, config: Some(second), split: Some(third) })
                    } else {
                        Some(HubRequestView::Split { dataset_id: id, config: Some(third), split: None })
                    }
                } else {
                    let e3 = piece_end(uri, e2 + 1);
                    Some(
                        HubRequestView::Split {
                            dataset_id: id,
                            config: Some(third),
                            split: Some(uri.subrange(e2 + 1, e3)),
                        },
                    )
                }
            }
        }
    }
}

/// What a location of the form `hf://datasets/<org>/<name>/<path>` names.
pub open spec fn location_of(uri: Seq<char>) -> Result<(Seq<char>, Seq<char>), HubError> {
    if !has_prefix(uri, "hf://datasets/"@) {
        Err(HubError::NotADatasetUri)
    } else {
        match dataset_and_path(uri.skip(14)) {
            None => Err(HubError::MissingFilePath),
            Some((id, path)) => Ok((id, without_link_prefix(path))),
        }
    }
}

fn strip_link_prefix(path: &Vec<char>) -> (r: Vec<char>)
    ensures
        r@ == without_link_prefix(path@),
{
    let main = chars_of("blob/main/");
    let master = chars_of("blob/master/");
    if starts_with(path, &main) {
        trim_start(path, &main)
    } else {
        trim_start(path, &master)
    }
}

fn split_dataset_and_path(s: &Vec<char>) -> (r: Option<(Vec<char>, Vec<char>)>)
    ensures
        match r {
            Some((id, path)) => dataset_and_path(s@) == Some((id@, path@)),
            None => dataset_and_path(s@) is None,
        },
{
    assert(s@.skip(0) =~= s@);
    let e0 = find_from(s, 0, '/');
    if e0 >= s.len() {
        return None;
    }
    let e1 = find_from(s, e0 + 1, '/');
    if e1 >= s.len() {
        return None;
    }
    let id = slice(s, 0, e1);
    let path = slice(s, e1 + 1, s.len());
    proof {
        assert(s@.subrange(0, e1 as int) =~= s@.take(e1 as int));
        assert(s@.subrange(e1 + 1, s@.len() as int) =~= s@.skip(e1 + 1));
    }
    Some((id, path))
}

/// Reads a location of the form `hf://datasets/<org>/<name>/<path>` into the
/// dataset identifier `<org>/<name>` and the path of the file.
pub fn parse_hub_location(uri: &str) -> (r: Result<(String, String), HubError>)
    ensures
        match r {
            Ok((id, path)) => location_of(uri@) == Ok::<(Seq<char>, Seq<char>), HubError>((id@, path@)),
            Err(e) => location_of(uri@) == Err::<(Seq<char>, Seq<char>), HubError>(e),
        },
{
    let s = chars_of(uri);
    let prefix = chars_of("hf://datasets/");
    proof {
        reveal_strlit("hf://datasets/");
    }
    if !starts_with(&s, &prefix) {
        return Err(HubError::NotADatasetUri);
    }
    let rest = slice(&s, 14, s.len());
    assert(s@.subrange(14, s@.len() as int) =~= s@.skip(14));
    match split_dataset_and_path(&rest) {
        None => Err(HubError::MissingFilePath),
        Some((id, path)) => {
            let clean = strip_link_prefix(&path);
            Ok((string_of(&id), string_of(&clean)))
        },
    }
}

/// Whether a name, whatever its case, is one of the usual names of a split.
fn names_a_split(piece: &Vec<char>) -> (r: bool)
    ensures
        r == is_split_name(lowercased(piece@)),
{
    let text = string_of(piece);
    let lower = lowercase(text.as_str());
    str_eq(lower.as_str(), "train") || str_eq(lower.as_str(), "test") || str_eq(lower.as_str(), "val")
        || str_eq(lower.as_str(), "validation") || str_eq(lower.as_str(), "dev")
}

/// Reads a dataset identifier. One that ends in `.parquet` names a file as
/// `<org>/<name>/<path>`. Any other names a dataset, followed by a
/// configuration and a split where it has more pieces than two.
pub fn parse_dataset_uri(dataset_uri: &str) -> (r: Result<HubRequest, HubError>)
    ensures
        match r {
            Ok(request) => request_of(dataset_uri@) == Some(request@),
            Err(e) => request_of(dataset_uri@) is None && e == HubError::MissingFilePath,
        },
{
    let s = chars_of(dataset_uri);
    let suffix = chars_of(".parquet");
    if ends_with(&s, &suffix) {
        return match split_dataset_and_path(&s) {
            None => Err(HubError::MissingFilePath),
            Some((id, path)) => {
                let clean = strip_link_prefix(&path);
                Ok(HubRequest::File { dataset_id: string_of(&id), file_path: string_of(&clean) })
            },
        };
    }
    assert(s@.skip(0) =~= s@);
    let e0 = find_from(&s, 0, '/');
    if e0 >= s.len() {
        return Ok(HubRequest::Split { dataset_id: string_of(&s), config: None, split: None });
    }
    let e1 = find_from(&s, e0 + 1, '/');
    if e1 >= s.len() {
        return Ok(HubRequest::Split { dataset_id: string_of(&s), config: None, split: None });
    }
    let e2 = find_from(&s, e1 + 1, '/');
    let id = slice(&s, 0, e1);
    let second = slice(&s, e0 + 1, e1);
    let third = slice(&s, e1 + 1, e2);
    assert(s@.subrange(0, e1 as int) =~= s@.take(e1 as int));
    if e2 >= s.len() {
        if names_a_split(&third) {
            Ok(
                HubRequest::Split {
                    dataset_id: string_of(&id),
                    config: Some(string_of(&second)),
                    split: Some(string_of(&third)),
                },
            )
        } else {
            Ok(HubRequest::Split { dataset_id: string_of(&id), config: Some(string_of(&third)), split: None })
        }
    } else {
        let e3 = find_from(&s, e2 + 1, '/');
        let fourth = slice(&s, e2 + 1, e3);
        Ok(
            HubRequest::Split {
                dataset_id: string_of(&id),
                config: Some(string_of(&third)),
                split: Some(string_of(&fourth)),
            },
        )
    }
}

/// Whether a file of a repository holds the split: a Parquet file named
/// after it, alone or followed by a hyphen and more.
pub open spec fn holds_split(name: Seq<char>, split: Seq<char>) -> bool {
    has_suffix(name, ".parquet"@) && (name.take(name.len() - 8) == split || has_prefix(
        name.take(name.len() - 8),
        split.push('-'),
    ))
}

/// Whether any file of the repository holds the split.
pub open spec fn split_present(files: Seq<String>, split: Seq<char>) -> bool {
    exists|i: int| 0 <= i < files.len() && holds_split(#[trigger] files[i]@, split)
}

/// Whether a file is among those to choose from: those that hold the split
/// where there are any, else every Parquet file.
pub open spec fn eligible(files: Seq<String>, split: Seq<char>, name: Seq<char>) -> bool {
    if split_present(files, split) {
        holds_split(name, split)
    } else {
        has_suffix(name, ".parquet"@)
    }
}

fn file_holds_split(name: &Vec<char>, split: &Vec<char>) -> (r: bool)
    ensures
        r == holds_split(name@, split@),
{
    let suffix = chars_of(".parquet");
    proof {
        reveal_strlit(".parquet");
    }
    if !ends_with(name, &suffix) {
        return false;
    }
    let stem = slice(name, 0, name.len() - 8);
    assert(name@.subrange(0, name@.len() - 8) =~= name@.take(name@.len() - 8));
    let mut dashed: Vec<char> = slice(split, 0, split.len());
    assert(split@.subrange(0, split@.len() as int) =~= split@);
    dashed.push('-');
    let same = stem.len() == split.len() && starts_with(&stem, split);
    proof {
        if stem@.len() == split@.len() {
            assert(stem@.subrange(0, split@.len() as int) =~= stem@);
        }
    }
    same || starts_with(&stem, &dashed)
}

/// Chooses the file of a split (`train` where none is named) among the
/// files of a repository: the first in the order of strings among those
/// that hold the split, or among all Parquet files where none holds it.
pub fn select_parquet_file(files: &Vec<String>, split_name: Option<&str>) -> (r: Option<String>)
    ensures
        ({
            let split = match split_name {
                Some(s) => s@,
                None => "train"@,
            };
            match r {
                None => forall|i: int| 0 <= i < files.len() ==> !has_suffix(#[trigger] files[i]@, ".parquet"@),
                Some(f) => {
                    &&& exists|i: int| 0 <= i < files.len() && #[trigger] files[i]@ == f@
                    &&& eligible(files@, split, f@)
                    &&& forall|k: int|
                        0 <= k < files.len() && eligible(files@, split, #[trigger] files[k]@)
                            ==> !lex_less(files[k]@, f@)
                },
            }
        }),
{
    let split: Vec<char> = match split_name {
        Some(s) => chars_of(s),
        None => chars_of("train"),
    };
    let suffix = chars_of(".parquet");
    let mut present = false;
    let mut i: usize = 0;
    while i < files.len()
        invariant
            i <= files.len(),
            present == exists|k: int| 0 <= k < i && holds_split(#[trigger] files[k]@, split@),
        decreases files.len() - i,
    {
        let name = chars_of(files[i].as_str());
        if file_holds_split(&name, &split) {
            present = true;
        }
        i += 1;
    }
    assert(present == split_present(files@, split@));
    let mut best: Option<Vec<char>> = None;
    let mut j: usize = 0;
    while j < files.len()
        invariant
            j <= files.len(),
            suffix@ == ".parquet"@,
            present == split_present(files@, split@),
            match best {
                None => forall|k: int| 0 <= k < j ==> !eligible(files@, split@, #[trigger] files[k]@),
                Some(b) => {
                    &&& exists|k: int| 0 <= k < j && #[trigger] files[k]@ == b@
                    &&& eligible(files@, split@, b@)
                    &&& forall|k: int|
                        0 <= k < j && eligible(files@, split@, #[trigger] files[k]@) ==> !lex_less(
                            files[k]@,
                            b@,
                        )
                },
            },
        decreases files.len() - j,
    {
        let name = chars_of(files[j].as_str());
        let candidate = if present {
            file_holds_split(&name, &split)
        } else {
            ends_with(&name, &suffix)
        };
        if candidate {
            let better = match &best {
                None => true,
                Some(b) => less_than(&name, b),
            };
            if better {
                proof {
                    if let Some(b) = best {
                        assert forall|k: int|
                            0 <= k < j && eligible(files@, split@, #[trigger] files[k]@) implies !lex_less(
                            files[k]@,
                            name@,
                        ) by {
                            if lex_less(files[k]@, name@) {
                                crate::text::lemma_lex_less_transitive(files[k]@, name@, b@);
                            }
                        }
                    }
                    crate::text::lemma_lex_less_irreflexive(name@);
                }
                best = Some(name);
            }
        }
        j += 1;
    }
    match best {
        None => {
            proof {
                assert forall|i: int| 0 <= i < files.len() implies !has_suffix(
                    #[trigger] files[i]@,
                    ".parquet"@,
                ) by {
                    assert(!eligible(files@, split@, files[i]@));
                }
            }
            None
        },
        Some(b) => Some(string_of(&b)),
    }
}

/// The first token that is present, in the order given.
pub fn first_token(candidates: Vec<Option<String>>) -> (r: Option<String>)
    ensures
        match r {
            Some(t) => exists|i: int|
                0 <= i < candidates.len() && #[trigger] candidates[i] == Some(t) && forall|k: int|
                    0 <= k < i ==> candidates[k] is None,
            None => forall|i: int| 0 <= i < candidates.len() ==> candidates[i] is None,
        },
{
    let mut i: usize = 0;
    while i < candidates.len()
        invariant
            i <= candidates.len(),
            forall|k: int| 0 <= k < i ==> candidates[k] is None,
        decreases candidates.len() - i,
    {
        if let Some(t) = &candidates[i] {
            let token = t.clone();
            assert(candidates[i as int] == Some(token));
            return Some(token);
        }
        i += 1;
    }
    None
}

} // verus!
