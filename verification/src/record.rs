//! Records, and how one is built from the parts of a matching line.

use vstd::prelude::*;
use vstd::string::StrSliceExecFns;
use vstd::string::StringExecFns;
use crate::pattern::Fields;
use crate::timestamp::{epoch_timestamp, parsed_seconds, read_timestamp, timestamp_format, timestamp_of};

verus! {

/// The number of characters of an identifier.
pub const IDENTIFIER_LENGTH: usize = 9;

/// What a record says: when the resource was requested, which resource, and
/// under which label.
pub ghost struct RecordModel {
    pub timestamp: u32,
    pub identifier: Seq<char>,
    pub slug: Seq<char>,
}

/// One observed request for a resource. Its identifier has exactly nine
/// characters.
#[derive(Debug, PartialEq, Eq)]
pub struct Record {
    timestamp: u32,
    identifier: String,
    slug: String,
}

/// Why an extraction stopped.
pub ghost enum Failure {
    /// The bytes of a file are neither compressed text nor plain text.
    Decode,
    /// A line with a valid identifier carries this timestamp, which does not
    /// parse.
    Timestamp(Seq<char>),
}

/// Why an extraction stopped.
#[derive(Debug, PartialEq, Eq)]
pub enum ExtractError {
    /// The bytes of a file are neither compressed text nor plain text.
    DecodeFailure,
    /// A line with a valid identifier carries this timestamp, which does not
    /// parse.
    TimestampParseFailure(String),
}

impl View for ExtractError {
    type V = Failure;

    open spec fn view(&self) -> Failure {
        match self {
            ExtractError::DecodeFailure => Failure::Decode,
            ExtractError::TimestampParseFailure(text) => Failure::Timestamp(text@),
        }
    }
}

/// What one line gives.
pub ghost enum Built {
    /// Nothing: the line is passed over.
    Skipped,
    /// Its timestamp, held here, does not parse: the extraction stops.
    Fatal(Seq<char>),
    /// A record.
    Found(RecordModel),
}

/// Whether `identifier` has the length of an identifier.
pub open spec fn valid_identifier(identifier: Seq<char>) -> bool {
    identifier.len() == IDENTIFIER_LENGTH
}

/// What the parts of a matching line give, where parsing the timestamp gave
/// `parsed`. The identifier is looked at first: a line with an identifier that
/// is not valid is passed over whatever its timestamp.
pub open spec fn built_with(parsed: Option<int>, fields: Fields) -> Built {
    if !valid_identifier(fields.identifier) {
        Built::Skipped
    } else {
        match parsed {
            None => Built::Fatal(fields.timestamp),
            Some(seconds) => Built::Found(
                RecordModel {
                    timestamp: timestamp_of(seconds),
                    identifier: fields.identifier,
                    slug: fields.slug,
                },
            ),
        }
    }
}

/// What the parts of a matching line give.
pub open spec fn built(fields: Fields) -> Built {
    built_with(parsed_seconds(fields.timestamp, timestamp_format()), fields)
}

impl View for Record {
    type V = RecordModel;

    closed spec fn view(&self) -> RecordModel {
        RecordModel { timestamp: self.timestamp, identifier: self.identifier@, slug: self.slug@ }
    }
}

impl Clone for Record {
    fn clone(&self) -> (copy: Record)
        ensures
            copy@ == self@,
    {
        proof {
            use_type_invariant(self);
        }
        Record {
            timestamp: self.timestamp,
            identifier: self.identifier.clone(),
            slug: self.slug.clone(),
        }
    }
}

impl Clone for ExtractError {
    fn clone(&self) -> (copy: ExtractError)
        ensures
            copy@ == self@,
    {
        match self {
            ExtractError::DecodeFailure => ExtractError::DecodeFailure,
            ExtractError::TimestampParseFailure(text) => ExtractError::TimestampParseFailure(
                text.clone(),
            ),
        }
    }
}

impl Record {
    #[verifier::type_invariant]
    spec fn identifier_is_valid(self) -> bool {
        valid_identifier(self.identifier@)
    }

    /// A record of the three values, or `None` where `identifier` is not valid.
    pub fn new(timestamp: u32, identifier: &str, slug: &str) -> (made: Option<Record>)
        ensures
            made is Some <==> valid_identifier(identifier@),
            made matches Some(record) ==> record@ == (RecordModel {
                timestamp,
                identifier: identifier@,
                slug: slug@,
            }),
    {
        if identifier.unicode_len() != IDENTIFIER_LENGTH {
            return None;
        }
        Some(Record { timestamp, identifier: String::from_str(identifier), slug: String::from_str(slug) })
    }

    /// When the resource was requested: seconds since the epoch.
    pub fn timestamp(&self) -> (timestamp: u32)
        ensures
            timestamp == self@.timestamp,
    {
        self.timestamp
    }

    /// The identifier of the resource, which is valid.
    pub fn identifier(&self) -> (identifier: &str)
        ensures
            identifier@ == self@.identifier,
            valid_identifier(identifier@),
    {
        proof {
            use_type_invariant(self);
        }
        self.identifier.as_str()
    }

    /// The label of the resource.
    pub fn slug(&self) -> (slug: &str)
        ensures
            slug@ == self@.slug,
    {
        self.slug.as_str()
    }

    /// This record at another time.
    pub fn at(&self, timestamp: u32) -> (moved: Record)
        ensures
            moved@ == (RecordModel { timestamp, ..self@ }),
    {
        proof {
            use_type_invariant(self);
        }
        Record { timestamp, identifier: self.identifier.clone(), slug: self.slug.clone() }
    }
}

/// Builds the record of a matching line from its parts and from what parsing
/// its timestamp gave: `None` where the identifier is not valid, the failure
/// where the identifier is valid and the timestamp did not parse.
pub fn build_with(parsed: Option<i64>, ts_str: &str, id_str: &str, slug_str: &str) -> (made: Result<
    Option<Record>,
    ExtractError,
>)
    ensures
        match built_with(
            match parsed {
                Some(seconds) => Some(seconds as int),
                None => None,
            },
            Fields { timestamp: ts_str@, identifier: id_str@, slug: slug_str@ },
        ) {
            Built::Skipped => made == Ok::<Option<Record>, ExtractError>(None),
            Built::Fatal(text) => made matches Err(error) && error@ == Failure::Timestamp(text),
            Built::Found(model) => made matches Ok(Some(record)) && record@ == model,
        },
{
    if id_str.unicode_len() != IDENTIFIER_LENGTH {
        return Ok(None);
    }
    match parsed {
        None => Err(ExtractError::TimestampParseFailure(String::from_str(ts_str))),
        Some(seconds) => Ok(Record::new(epoch_timestamp(seconds), id_str, slug_str)),
    }
}

/// Builds the record of a matching line from its parts: `None` where the
/// identifier is not valid, the failure where the identifier is valid and the
/// timestamp does not parse.
pub fn build(ts_str: &str, id_str: &str, slug_str: &str) -> (made: Result<
    Option<Record>,
    ExtractError,
>)
    ensures
        match built(Fields { timestamp: ts_str@, identifier: id_str@, slug: slug_str@ }) {
            Built::Skipped => made == Ok::<Option<Record>, ExtractError>(None),
            Built::Fatal(text) => made matches Err(error) && error@ == Failure::Timestamp(text),
            Built::Found(model) => made matches Ok(Some(record)) && record@ == model,
        },
{
    if id_str.unicode_len() != IDENTIFIER_LENGTH {
        return Ok(None);
    }
    build_with(read_timestamp(ts_str), ts_str, id_str, slug_str)
}

} // verus!
