//! The records of one file: every line is matched, and each match is built
//! into a record; a later record of an identifier takes the place of an
//! earlier one.

use vstd::prelude::*;
use vstd::slice::slice_subrange;
use crate::mapping::{Mapping, RecordMap};
use crate::pattern::{capture_chars, line_fields, request_prefix, request_prefix_chars};
use crate::record::{build, built, Built, ExtractError, Failure, Record, RecordModel};
use crate::text::{chars_of, lines_from, lines_of, next_line};

verus! {

/// What one line gives: nothing where it does not match, else what its parts
/// give.
pub open spec fn line_outcome(line: Seq<char>) -> Built {
    match line_fields(line) {
        None => Built::Skipped,
        Some(fields) => built(fields),
    }
}

/// The mapping `start` after the records of `lines` were put into it in
/// order, each under its identifier, or the failure of the first line whose
/// timestamp does not parse.
pub open spec fn records_from(lines: Seq<Seq<char>>, start: Mapping) -> Result<Mapping, Failure>
    decreases lines.len(),
{
    if lines.len() == 0 {
        Ok(start)
    } else {
        match line_outcome(lines[0]) {
            Built::Skipped => records_from(lines.drop_first(), start),
            Built::Fatal(text) => Err(Failure::Timestamp(text)),
            Built::Found(record) => records_from(
                lines.drop_first(),
                start.insert(record.identifier, record),
            ),
        }
    }
}

/// The records of a file with the given lines.
pub open spec fn lines_records(lines: Seq<Seq<char>>) -> Result<Mapping, Failure> {
    records_from(lines, Map::empty())
}

/// The records of a file with the given text.
pub open spec fn text_records(text: Seq<char>) -> Result<Mapping, Failure> {
    lines_records(lines_of(text))
}

/// What one line gives; `prefix` is the request prefix.
fn extract_chars(line: &[char], prefix: &[char]) -> (made: Result<Option<Record>, ExtractError>)
    requires
        prefix@ == request_prefix(),
    ensures
        match line_outcome(line@) {
            Built::Skipped => made == Ok::<Option<Record>, ExtractError>(None),
            Built::Fatal(text) => made matches Err(error) && error@ == Failure::Timestamp(text),
            Built::Found(model) => made matches Ok(Some(record)) && record@ == model,
        },
{
    match capture_chars(line, prefix) {
        None => Ok(None),
        Some(parts) => build(
            parts.timestamp.as_str(),
            parts.identifier.as_str(),
            parts.slug.as_str(),
        ),
    }
}

/// What one line of a log gives: `None` where it does not match or its
/// identifier is not valid, the failure where its timestamp does not parse,
/// and else its record.
pub fn extract_line(line: &str) -> (made: Result<Option<Record>, ExtractError>)
    ensures
        match line_outcome(line@) {
            Built::Skipped => made == Ok::<Option<Record>, ExtractError>(None),
            Built::Fatal(text) => made matches Err(error) && error@ == Failure::Timestamp(text),
            Built::Found(model) => made matches Ok(Some(record)) && record@ == model,
        },
{
    let chars = chars_of(line);
    let prefix = request_prefix_chars();
    extract_chars(chars.as_slice(), prefix.as_slice())
}

/// The records of a file with the given text: the last matching line of an
/// identifier gives its record, whatever the times. The first line with a
/// valid identifier and a timestamp that does not parse stops the
/// extraction, and nothing is returned but that failure.
pub fn extract_text(text: &str) -> (made: Result<RecordMap, ExtractError>)
    ensures
        match text_records(text@) {
            Ok(mapping) => made matches Ok(found) && found.wf() && found@ == mapping,
            Err(failure) => made matches Err(error) && error@ == failure,
        },
{
    let chars = chars_of(text);
    let prefix = request_prefix_chars();
    let mut found = RecordMap::new();
    let mut pos: usize = 0;
    while pos < chars.len()
        invariant
            pos <= chars.len(),
            chars@ == text@,
            prefix@ == request_prefix(),
            found.wf(),
            text_records(text@) == records_from(lines_from(chars@, pos as int), found@),
        decreases chars.len() - pos,
    {
        let (end, next) = next_line(chars.as_slice(), pos);
        let line = slice_subrange(chars.as_slice(), pos, end);
        proof {
            let rest = lines_from(chars@, next as int);
            let lines = lines_from(chars@, pos as int);
            assert(lines == seq![line@].add(rest));
            assert(lines[0] == line@);
            assert(lines.drop_first() =~= rest);
        }
        match extract_chars(line, prefix.as_slice()) {
            Err(error) => {
                return Err(error);
            },
            Ok(None) => {},
            Ok(Some(record)) => {
                found.insert(record);
            },
        }
        pos = next;
    }
    Ok(found)
}

} // verus!
