//! Reading JSON lines: one record per line, and the schema of the first.

use vstd::prelude::*;
use crate::io::reader::schema::{DataType, Field, Schema};
use crate::io::writer::parquet::type_of_kind;
use crate::plan::ReadError;
use crate::sample::{json_kind, JsonKind, Sample};
use crate::text::{chars_of, string_of, trim, trimmed};

verus! {

/// An error of `serde_json`.
#[verifier::external_type_specification]
#[verifier::external_body]
pub struct ExJsonError(serde_json::Error);

/// The value that a text is the JSON of, where it is well-formed.
pub uninterp spec fn json_parsed(text: Seq<char>) -> Option<serde_json::Value>;

/// `serde_json::from_str` into a `Value`.
#[verifier::external_body]
fn parse_json(text: &str) -> (r: Result<serde_json::Value, serde_json::Error>)
    ensures
        match r {
            Ok(v) => json_parsed(text@) == Some(v),
            Err(_) => json_parsed(text@) is None,
        },
{
    serde_json::from_str(text)
}

/// The `Display` of an error of `serde_json`.
#[verifier::external_body]
fn error_text(e: &serde_json::Error) -> String {
    e.to_string()
}

/// What the message of a line that is no JSON begins with.
pub open spec fn failure_prefix() -> Seq<char> {
    "Failed to parse JSON: "@
}

/// The failure of a line that is no JSON, from what the parser said.
pub fn parse_failure(reason: &str) -> (r: ReadError)
    ensures
        r.message@ == failure_prefix() + reason@,
{
    let mut chars = chars_of("Failed to parse JSON: ");
    let tail = chars_of(reason);
    chars.extend_from_slice(tail.as_slice());
    ReadError { message: string_of(&chars) }
}

/// What a line of the file holds.
pub enum Decoded {
    /// Nothing: the line is blank and is skipped.
    Blank,
    /// A record.
    Record(Sample),
    /// No JSON: the position goes to the error stream.
    Failure(ReadError),
}

/// The column type of a value in the first line: that of its kind, and
/// text for null, arrays and objects.
pub open spec fn first_line_type(kind: JsonKind) -> DataType {
    match type_of_kind(kind) {
        Some(t) => t,
        None => DataType::Utf8,
    }
}

/// Whether a line is blank: nothing but white space.
pub open spec fn is_blank(line: Seq<char>) -> bool {
    trimmed(line).len() == 0
}

/// The item that a line that is not blank gives: the parsed record, or
/// the failure of a line that is no JSON.
pub open spec fn line_gives(line: Seq<char>, r: Result<Sample, ReadError>) -> bool {
    match json_parsed(line) {
        Some(v) => r matches Ok(s) && JsonlReader::is_record_of(v, s),
        None => r matches Err(e) && crate::text::has_prefix(e.message@, failure_prefix()),
    }
}

/// What a line holds: nothing where it is blank, else its item.
pub open spec fn line_decodes(line: Seq<char>, r: Decoded) -> bool {
    if is_blank(line) {
        r is Blank
    } else {
        match r {
            Decoded::Blank => false,
            Decoded::Record(s) => line_gives(line, Ok(s)),
            Decoded::Failure(e) => line_gives(line, Err(e)),
        }
    }
}

/// The lines among the first `n` that are not blank, in order.
pub open spec fn filled_lines(lines: Seq<String>, n: int) -> Seq<Seq<char>>
    decreases n,
{
    if n <= 0 {
        Seq::empty()
    } else if is_blank(lines[n - 1]@) {
        filled_lines(lines, n - 1)
    } else {
        filled_lines(lines, n - 1).push(lines[n - 1]@)
    }
}

/// The reader of a file of JSON lines: its schema, and the line that was
/// read ahead to learn it.
pub struct JsonlReader {
    schema: Schema,
    current_line: Option<String>,
}

impl JsonlReader {
    /// The schema, from the first line of the file.
    pub closed spec fn first_schema(&self) -> Schema {
        self.schema
    }

    /// The line read ahead and not yet handed out.
    pub closed spec fn pending(&self) -> Option<String> {
        self.current_line
    }

    /// `s` is the record of the value `v`: `v` itself where it is an
    /// object, else a record without columns.
    pub open spec fn is_record_of(v: serde_json::Value, s: Sample) -> bool {
        if json_kind(v) is Object {
            s == Sample(v)
        } else {
            s.is_object() && s@ == Map::<Seq<char>, JsonKind>::empty()
        }
    }

    /// `schema` is the schema of the value `v`: one nullable column per key
    /// of an object, typed by the key's value; none for any other value.
    pub open spec fn is_schema_of(v: serde_json::Value, schema: Schema) -> bool {
        &&& forall|i: int|
            0 <= i < schema.fields@.len() ==> {
                let f = #[trigger] schema.fields@[i];
                &&& Sample(v)@.contains_key(f.name@)
                &&& f.data_type == first_line_type(Sample(v)@[f.name@])
                &&& f.nullable
            }
        &&& forall|i: int, j: int|
            0 <= i < j < schema.fields@.len() ==> (#[trigger] schema.fields@[i]).name@ != (
            #[trigger] schema.fields@[j]).name@
        &&& forall|name: Seq<char>| Sample(v)@.contains_key(name) ==> #[trigger] schema.has(name)
    }

    /// The record of a parsed line.
    pub fn json_to_sample(value: serde_json::Value) -> (r: Sample)
        ensures
            Self::is_record_of(value, r),
    {
        match Sample::from_value(value) {
            Some(s) => s,
            None => Sample::new(),
        }
    }

    /// The schema of the first line's value.
    pub fn infer_schema(value: &serde_json::Value) -> (r: Schema)
        ensures
            Self::is_schema_of(*value, r),
    {
        let sample = Sample(crate::sample::copy_value(value));
        let keys = sample.keys();
        let mut fields: Vec<Field> = Vec::new();
        let mut i: usize = 0;
        while i < keys.len()
            invariant
                i <= keys@.len(),
                fields@.len() == i,
                sample == Sample(*value),
                forall|k: int| 0 <= k < keys@.len() ==> sample@.contains_key(#[trigger] keys@[k]@),
                forall|k: int|
                    0 <= k < i ==> {
                        let f = #[trigger] fields@[k];
                        &&& f.name@ == keys@[k]@
                        &&& f.data_type == first_line_type(sample@[f.name@])
                        &&& f.nullable
                    },
            decreases keys@.len() - i,
        {
            let data_type = match crate::io::writer::parquet::kind_under(&sample, keys[i].as_str()) {
                Some(Some(t)) => t,
                _ => DataType::Utf8,
            };
            fields.push(Field { name: keys[i].clone(), data_type, nullable: true });
            i += 1;
        }
        let schema = Schema { fields };
        proof {
            assert forall|name: Seq<char>| sample@.contains_key(name) implies #[trigger] schema.has(name) by {
                let q = choose|q: int| 0 <= q < keys@.len() && (#[trigger] keys@[q])@ == name;
                assert(schema.fields@[q].name@ == name);
            }
        }
        schema
    }

    /// The reader of a file whose first line is `first_line`. The schema is
    /// that of the first line's value; it is empty where the line is blank
    /// or no JSON. The line stays pending, so that reading yields its
    /// record, or its failure.
    pub fn new(first_line: String) -> (r: Self)
        ensures
            r.pending() == Some(first_line),
            match json_parsed(first_line@) {
                Some(v) if !is_blank(first_line@) => Self::is_schema_of(v, r.first_schema()),
                _ => r.first_schema().fields@.len() == 0,
            },
    {
        let blank = chars_of(trim(first_line.as_str()).as_str()).len() == 0;
        let schema = if blank {
            Schema::empty()
        } else {
            match parse_json(first_line.as_str()) {
                Ok(value) => Self::infer_schema(&value),
                Err(_) => Schema::empty(),
            }
        };
        JsonlReader { schema, current_line: Some(first_line) }
    }

    /// The schema of the file.
    pub fn schema(&self) -> (r: &Schema)
        ensures
            *r == self.first_schema(),
    {
        &self.schema
    }

    /// Hands out the line that was read ahead, once.
    pub fn take_pending(&mut self) -> (r: Option<String>)
        ensures
            r == old(self).pending(),
            final(self).pending() is None,
            final(self).first_schema() == old(self).first_schema(),
    {
        self.current_line.take()
    }

    /// What a line of the file holds.
    pub fn decode_line(line: &str) -> (r: Decoded)
        ensures
            line_decodes(line@, r),
    {
        if chars_of(trim(line).as_str()).len() == 0 {
            return Decoded::Blank;
        }
        match parse_json(line) {
            Ok(value) => Decoded::Record(Self::json_to_sample(value)),
            Err(e) => {
                let failure = parse_failure(error_text(&e).as_str());
                assert(failure.message@.subrange(0, failure_prefix().len() as int) =~= failure_prefix());
                Decoded::Failure(failure)
            },
        }
    }

    /// The items of the lines of a file, in order: one for every line that
    /// is not blank; blank lines are skipped.
    pub fn decode_lines(lines: &Vec<String>) -> (r: Vec<Result<Sample, ReadError>>)
        ensures
            r@.len() == filled_lines(lines@, lines@.len() as int).len(),
            forall|i: int|
                0 <= i < r@.len() ==> line_gives(filled_lines(lines@, lines@.len() as int)[i], #[trigger] r@[i]),
    {
        let mut out: Vec<Result<Sample, ReadError>> = Vec::new();
        let mut k: usize = 0;
        while k < lines.len()
            invariant
                k <= lines@.len(),
                out@.len() == filled_lines(lines@, k as int).len(),
                forall|i: int|
                    0 <= i < out@.len() ==> line_gives(filled_lines(lines@, k as int)[i], #[trigger] out@[i]),
            decreases lines@.len() - k,
        {
            match Self::decode_line(lines[k].as_str()) {
                Decoded::Blank => {},
                Decoded::Record(s) => {
                    out.push(Ok(s));
                },
                Decoded::Failure(e) => {
                    out.push(Err(e));
                },
            }
            k += 1;
        }
        out
    }
}

} // verus!
