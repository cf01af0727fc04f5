//! Records as JSON lines: one record per line.

use vstd::prelude::*;
use crate::sample::Sample;
use crate::text::{chars_of, string_of};
use crate::yaml::owned_text_view;

verus! {

/// The JSON text of a value, where `serde_json` can write it.
pub uninterp spec fn json_written(v: serde_json::Value) -> Option<Seq<char>>;

/// `serde_json::to_string` of a value; `None` where it fails.
#[verifier::external_body]
fn json_to_string(v: &serde_json::Value) -> (r: Option<String>)
    ensures
        owned_text_view(r) == json_written(*v),
{
    serde_json::to_string(v).ok()
}

/// The first `n` records as lines: the JSON text of each, followed by a
/// line feed. `None` where a record cannot be written.
pub open spec fn lines_of(samples: Seq<Sample>, n: int) -> Option<Seq<char>>
    decreases n,
{
    if n <= 0 {
        Some(Seq::empty())
    } else {
        match (lines_of(samples, n - 1), json_written(samples[n - 1].0)) {
            (Some(before), Some(line)) => Some(before + line.push('\n')),
            _ => None,
        }
    }
}

/// The text of a batch of records, to be written in one call.
pub fn render_lines(batch: &Vec<Sample>) -> (r: Option<String>)
    ensures
        owned_text_view(r) == lines_of(batch@, batch@.len() as int),
{
    let mut out: Vec<char> = Vec::new();
    let mut i: usize = 0;
    while i < batch.len()
        invariant
            i <= batch@.len(),
            lines_of(batch@, i as int) == Some(out@),
        decreases batch@.len() - i,
    {
        match json_to_string(batch[i].as_value()) {
            Some(line) => {
                let chars = chars_of(line.as_str());
                out.extend_from_slice(chars.as_slice());
                out.push('\n');
            },
            None => {
                proof {
                    lemma_unwritable_stays(batch@, i as int + 1, batch@.len() as int);
                }
                return None;
            },
        }
        i += 1;
    }
    Some(string_of(&out))
}

/// Records that cannot be written as lines cannot be with more after them.
proof fn lemma_unwritable_stays(samples: Seq<Sample>, n: int, m: int)
    requires
        0 <= n <= m,
        lines_of(samples, n) is None,
    ensures
        lines_of(samples, m) is None,
    decreases m - n,
{
    if n < m {
        lemma_unwritable_stays(samples, n, m - 1);
    }
}

} // verus!
