//! Counting the symbols and the words of a text column: the two numbers
//! whose ratio the symbol-ratio filter judges.

use vstd::prelude::*;
use crate::op::{ConfigError, OperatorError};
use crate::sample::{text_at, Sample};

verus! {

/// A compiled regular expression of the `regex` crate.
#[verifier::external_type_specification]
#[verifier::external_body]
pub struct ExRegex(regex::Regex);

/// The expression that `regex::Regex::new` compiles a pattern to, where it
/// accepts the pattern.
pub uninterp spec fn regex_compiled(pattern: Seq<char>) -> Option<regex::Regex>;

/// The number of successive non-overlapping matches of a compiled
/// expression in a text.
pub uninterp spec fn regex_match_count(re: regex::Regex, text: Seq<char>) -> nat;

/// `regex::Regex::new`: the compiled pattern where the crate accepts it, else `None`.
#[verifier::external_body]
fn compile_regex(pattern: &str) -> (r: Option<regex::Regex>)
    ensures
        r == regex_compiled(pattern@),
{
    regex::Regex::new(pattern).ok()
}

/// `regex::Regex::find_iter`, counted.
#[verifier::external_body]
fn count_matches(re: &regex::Regex, text: &str) -> (r: usize)
    ensures
        r == regex_match_count(*re, text@),
{
    re.find_iter(text).count()
}

/// The pattern of what counts as a symbol: a hash sign, or an ellipsis as
/// three full stops, as three spaced full stops or as one character.
pub open spec fn symbol_pattern() -> Seq<char> {
    "#|\\.\\.\\.|\\. \\. \\.|\u{2026}"@
}

/// Whether a byte separates words: space, tab, line feed or carriage return.
pub open spec fn is_gap(b: u8) -> bool {
    b == 32 || b == 9 || b == 10 || b == 13
}

/// The number of words that begin among the first `n` bytes: bytes that are
/// no gap and stand first or after a gap.
pub open spec fn word_starts(bytes: Seq<u8>, n: int) -> int
    decreases n,
{
    if n <= 0 {
        0
    } else {
        word_starts(bytes, n - 1) + if !is_gap(bytes[n - 1]) && (n == 1 || is_gap(bytes[n - 2])) {
            1int
        } else {
            0int
        }
    }
}

/// The number of words of a text, and at least one.
pub open spec fn word_count(bytes: Seq<u8>) -> int {
    if word_starts(bytes, bytes.len() as int) < 1 {
        1
    } else {
        word_starts(bytes, bytes.len() as int)
    }
}

proof fn lemma_word_starts_bound(bytes: Seq<u8>, n: int)
    requires
        0 <= n,
    ensures
        0 <= word_starts(bytes, n) <= n,
    decreases n,
{
    if n > 0 {
        lemma_word_starts_bound(bytes, n - 1);
    }
}

/// The number of words of a text, and at least one.
pub fn count_words(text: &str) -> (r: usize)
    ensures
        r == word_count(vstd::utf8::encode_utf8(text@)),
{
    let bytes = text.as_bytes();
    let mut count: usize = 0;
    let mut in_word = false;
    let mut i: usize = 0;
    while i < bytes.len()
        invariant
            i <= bytes@.len(),
            bytes@ == vstd::utf8::encode_utf8(text@),
            count == word_starts(bytes@, i as int),
            in_word == (i > 0 && !is_gap(bytes@[i - 1])),
        decreases bytes@.len() - i,
    {
        let b = bytes[i];
        let gap = b == 32 || b == 9 || b == 10 || b == 13;
        proof {
            lemma_word_starts_bound(bytes@, i as int);
        }
        if gap {
            in_word = false;
        } else if !in_word {
            count += 1;
            in_word = true;
        }
        i += 1;
    }
    if count < 1 {
        1
    } else {
        count
    }
}

/// Counts the symbols and the words of the text in `text_col`.
pub struct SymbolCounter {
    text_col: String,
    symbol_pattern: regex::Regex,
}

impl SymbolCounter {
    pub closed spec fn column(&self) -> Seq<char> {
        self.text_col@
    }

    /// The compiled expression that the counter matches symbols with.
    pub closed spec fn expression(&self) -> regex::Regex {
        self.symbol_pattern
    }

    /// The counter on a column, where the `regex` crate accepts the symbol pattern.
    pub fn new(text_col: String) -> (r: Result<Self, ConfigError>)
        ensures
            r is Ok == regex_compiled(symbol_pattern()).is_some(),
            r matches Ok(c) ==> c.column() == text_col@ && Some(c.expression()) == regex_compiled(
                symbol_pattern(),
            ),
            r matches Err(e) ==> e.message@ == "invalid symbol pattern"@,
    {
        Self::from_compiled(text_col, compile_regex("#|\\.\\.\\.|\\. \\. \\.|\u{2026}"))
    }

    /// The counter on a column that matches symbols with what compiling a
    /// pattern gave: the counter with that expression, or the refusal where
    /// the pattern did not compile.
    pub fn from_compiled(text_col: String, compiled: Option<regex::Regex>) -> (r: Result<
        Self,
        ConfigError,
    >)
        ensures
            match compiled {
                Some(re) => r matches Ok(c) && c.column() == text_col@ && c.expression() == re,
                None => r matches Err(e) && e.message@ == "invalid symbol pattern"@,
            },
    {
        match compiled {
            Some(symbol_pattern) => Ok(SymbolCounter { text_col, symbol_pattern }),
            None => Err(ConfigError { message: "invalid symbol pattern".to_string() }),
        }
    }

    /// The number of symbols and the number of words of the record's text.
    /// A record without text in the column fails.
    pub fn counts(&self, sample: &Sample) -> (r: Result<(usize, usize), OperatorError>)
        ensures
            r is Ok == text_at(sample@, self.column()).is_some(),
            r matches Ok((symbols, words)) ==> {
                let text = text_at(sample@, self.column())->Some_0;
                &&& symbols == regex_match_count(self.expression(), text)
                &&& words == word_count(vstd::utf8::encode_utf8(text))
            },
    {
        match sample.get_str(self.text_col.as_str()) {
            Some(text) => Ok((count_matches(&self.symbol_pattern, text), count_words(text))),
            None => Err(OperatorError { message: "Missing text field".to_string() }),
        }
    }
}

} // verus!
