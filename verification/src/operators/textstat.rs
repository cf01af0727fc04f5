//! Text statistics: the counts that the text-statistics annotator adds to
//! a record of text.

use vstd::prelude::*;
use crate::text::{chars_of, is_whitespace, string_of, white_space};
use crate::yaml::{yaml_as_string, yaml_text};

verus! {

/// Whether `char::is_alphabetic` holds of a character.
pub uninterp spec fn alphabetic(c: char) -> bool;

/// `char::is_alphabetic`.
#[verifier::external_body]
fn is_alphabetic(c: char) -> (r: bool)
    ensures
        r == alphabetic(c),
{
    c.is_alphabetic()
}

/// The counts of a text.
#[derive(Clone, Copy, PartialEq, Eq, Structural, Debug)]
pub struct TextMetrics {
    /// The characters.
    pub character_count: usize,
    /// The alphabetic characters.
    pub letter_count: usize,
    /// The words: the runs of characters between white space.
    pub lexicon_count: usize,
    /// The full stops, and at least one.
    pub sentence_count: usize,
}

/// The number of alphabetic characters among the first `n`.
pub open spec fn letters(s: Seq<char>, n: int) -> int
    decreases n,
{
    if n <= 0 {
        0
    } else {
        letters(s, n - 1) + if alphabetic(s[n - 1]) {
            1int
        } else {
            0int
        }
    }
}

/// The number of words that begin among the first `n` characters:
/// characters that are no white space and stand first or after white space.
pub open spec fn words(s: Seq<char>, n: int) -> int
    decreases n,
{
    if n <= 0 {
        0
    } else {
        words(s, n - 1) + if !white_space(s[n - 1]) && (n == 1 || white_space(s[n - 2])) {
            1int
        } else {
            0int
        }
    }
}

/// The number of full stops among the first `n` characters.
pub open spec fn full_stops(s: Seq<char>, n: int) -> int
    decreases n,
{
    if n <= 0 {
        0
    } else {
        full_stops(s, n - 1) + if s[n - 1] == '.' {
            1int
        } else {
            0int
        }
    }
}

/// The counts of a text.
pub open spec fn metrics_of(s: Seq<char>) -> TextMetrics {
    TextMetrics {
        character_count: s.len() as usize,
        letter_count: letters(s, s.len() as int) as usize,
        lexicon_count: words(s, s.len() as int) as usize,
        sentence_count: (if full_stops(s, s.len() as int) < 1 {
            1int
        } else {
            full_stops(s, s.len() as int)
        }) as usize,
    }
}

proof fn lemma_counts_bounded(s: Seq<char>, n: int)
    requires
        0 <= n,
    ensures
        0 <= letters(s, n) <= n,
        0 <= words(s, n) <= n,
        0 <= full_stops(s, n) <= n,
    decreases n,
{
    if n > 0 {
        lemma_counts_bounded(s, n - 1);
    }
}

/// Counts the characters, letters, words and sentences of a text.
pub fn text_metrics(text: &str) -> (r: TextMetrics)
    ensures
        r == metrics_of(text@),
{
    let chars = chars_of(text);
    let mut letter_count: usize = 0;
    let mut lexicon_count: usize = 0;
    let mut stops: usize = 0;
    let mut in_word = false;
    let mut i: usize = 0;
    while i < chars.len()
        invariant
            i <= chars@.len(),
            letter_count == letters(chars@, i as int),
            lexicon_count == words(chars@, i as int),
            stops == full_stops(chars@, i as int),
            in_word == (i > 0 && !white_space(chars@[i - 1])),
        decreases chars@.len() - i,
    {
        proof {
            lemma_counts_bounded(chars@, i as int);
        }
        let c = chars[i];
        if is_alphabetic(c) {
            letter_count += 1;
        }
        if is_whitespace(c) {
            in_word = false;
        } else if !in_word {
            lexicon_count += 1;
            in_word = true;
        }
        if c == '.' {
            stops += 1;
        }
        i += 1;
    }
    TextMetrics {
        character_count: chars.len(),
        letter_count,
        lexicon_count,
        sentence_count: if stops < 1 {
            1
        } else {
            stops
        },
    }
}

/// The names of the statistics whose columns the annotator adds: the four
/// that it computes, then the six that it leaves null.
pub fn metric_names() -> (r: Vec<&'static str>)
    ensures
        r@.len() == 10,
        r@[0]@ == "character_count"@,
        r@[1]@ == "letter_count"@,
        r@[2]@ == "lexicon_count"@,
        r@[3]@ == "sentence_count"@,
        r@[4]@ == "flesch_reading_ease"@,
        r@[5]@ == "automated_readability_index"@,
        r@[6]@ == "syllable_count"@,
        r@[7]@ == "polysyllable_count"@,
        r@[8]@ == "monosyllable_count"@,
        r@[9]@ == "difficult_words"@,
{
    let mut names: Vec<&'static str> = Vec::new();
    names.push("character_count");
    names.push("letter_count");
    names.push("lexicon_count");
    names.push("sentence_count");
    names.push("flesch_reading_ease");
    names.push("automated_readability_index");
    names.push("syllable_count");
    names.push("polysyllable_count");
    names.push("monosyllable_count");
    names.push("difficult_words");
    names
}

/// The column of a statistic: its name after `__annotation_textstat_`.
pub fn metric_column(metric: &str) -> (r: String)
    ensures
        r@ == "__annotation_textstat_"@ + metric@,
{
    let mut chars = chars_of("__annotation_textstat_");
    let name = chars_of(metric);
    chars.extend_from_slice(name.as_slice());
    string_of(&chars)
}

/// The value of the first parameter named `column`.
pub open spec fn column_param(params: Seq<(String, serde_yaml::Value)>) -> Option<serde_yaml::Value>
    decreases params.len(),
{
    if params.len() == 0 {
        None
    } else if params[0].0@ == "column"@ {
        Some(params[0].1)
    } else {
        column_param(params.drop_first())
    }
}

/// The column that the annotator reads: the text of the parameter
/// `column`, or `text` where there is none.
pub fn annotated_column(params: &Vec<(String, serde_yaml::Value)>) -> (r: String)
    ensures
        r@ == (match column_param(params@) {
            Some(v) => match yaml_text(v) {
                Some(t) => t,
                None => "text"@,
            },
            None => "text"@,
        }),
{
    let mut i: usize = 0;
    assert(params@.skip(0) =~= params@);
    while i < params.len()
        invariant
            i <= params@.len(),
            column_param(params@) == column_param(params@.skip(i as int)),
        decreases params@.len() - i,
    {
        assert(params@.skip(i as int).drop_first() =~= params@.skip(i + 1));
        assert(params@.skip(i as int)[0] == params@[i as int]);
        if crate::text::str_eq(params[i].0.as_str(), "column") {
            return match yaml_as_string(&params[i].1) {
                Some(t) => t,
                None => "text".to_string(),
            };
        }
        i += 1;
    }
    "text".to_string()
}

} // verus!
