//! Laws of extraction and merging, stated over the models of the other
//! modules and proved from their definitions.

use vstd::prelude::*;
use vstd::utf8::{decode_utf8, valid_utf8};
use crate::decode::{file_records, file_text, gunzipped_text};
use crate::extract::{line_outcome, lines_records, records_from, text_records};
use crate::mapping::{merged, valid_mapping, Mapping};
use crate::pattern::line_fields;
use crate::record::{valid_identifier, Built, Failure, RecordModel};
use crate::reduce::{reduced, reduced_from};
use crate::text::lines_of;
use crate::timestamp::{parsed_seconds, timestamp_format};

verus! {

/// Whether file `i` of `files` has a record for the identifier `k`.
pub open spec fn has_record(files: Seq<Seq<u8>>, i: int, k: Seq<char>) -> bool {
    0 <= i < files.len() && file_records(files[i]) is Ok && file_records(
        files[i],
    )->Ok_0.contains_key(k)
}

/// The record that file `i` of `files` has for the identifier `k`.
pub open spec fn record_in(files: Seq<Seq<u8>>, i: int, k: Seq<char>) -> RecordModel {
    file_records(files[i])->Ok_0[k]
}

/// Whether file `i` is the first of `files` that has a record for `k`.
pub open spec fn first_with(files: Seq<Seq<u8>>, i: int, k: Seq<char>) -> bool {
    has_record(files, i, k) && forall|j: int| 0 <= j < i ==> !has_record(files, j, k)
}

/// Whether line `j` of `lines` gives a record for the identifier `k`.
pub open spec fn gives_record(lines: Seq<Seq<char>>, j: int, k: Seq<char>) -> bool {
    0 <= j < lines.len() && line_outcome(lines[j]) is Found && line_outcome(
        lines[j],
    )->Found_0.identifier == k
}

proof fn lemma_lines_valid(lines: Seq<Seq<char>>, start: Mapping)
    requires
        valid_mapping(start),
        records_from(lines, start) is Ok,
    ensures
        valid_mapping(records_from(lines, start)->Ok_0),
    decreases lines.len(),
{
    if lines.len() > 0 {
        match line_outcome(lines[0]) {
            Built::Skipped => lemma_lines_valid(lines.drop_first(), start),
            Built::Fatal(_) => {},
            Built::Found(record) => {
                lemma_lines_valid(lines.drop_first(), start.insert(record.identifier, record));
            },
        }
    }
}

proof fn lemma_lines_domain(lines: Seq<Seq<char>>, start: Mapping, k: Seq<char>)
    requires
        records_from(lines, start) is Ok,
    ensures
        records_from(lines, start)->Ok_0.contains_key(k) <==> start.contains_key(k) || exists|
            j: int,
        | gives_record(lines, j, k),
        start.contains_key(k) && (forall|j: int| !gives_record(lines, j, k)) ==> records_from(
            lines,
            start,
        )->Ok_0[k] == start[k],
    decreases lines.len(),
{
    if lines.len() > 0 {
        let rest = lines.drop_first();
        let next = match line_outcome(lines[0]) {
            Built::Found(record) => start.insert(record.identifier, record),
            _ => start,
        };
        lemma_lines_domain(rest, next, k);
        assert forall|j: int| 0 <= j implies gives_record(rest, j, k) == gives_record(
            lines,
            j + 1,
            k,
        ) by {
            if j < rest.len() {
                assert(rest[j] == lines[j + 1]);
            }
        }
        let made = records_from(lines, start)->Ok_0;
        if made.contains_key(k) && !start.contains_key(k) {
            if next.contains_key(k) {
                assert(gives_record(lines, 0, k));
            } else {
                let j = choose|j: int| gives_record(rest, j, k);
                assert(gives_record(lines, j + 1, k));
            }
        }
        if exists|j: int| gives_record(lines, j, k) {
            let j = choose|j: int| gives_record(lines, j, k);
            if j > 0 {
                assert(gives_record(rest, j - 1, k));
            }
        }
        if forall|j: int| !gives_record(lines, j, k) {
            assert(!gives_record(lines, 0, k));
            assert forall|j: int| !gives_record(rest, j, k) by {
                if 0 <= j {
                    assert(!gives_record(lines, j + 1, k));
                }
            }
        }
    }
}

proof fn lemma_last_line_wins(lines: Seq<Seq<char>>, start: Mapping, j: int, k: Seq<char>)
    requires
        records_from(lines, start) is Ok,
        gives_record(lines, j, k),
        forall|i: int| j < i ==> !gives_record(lines, i, k),
    ensures
        records_from(lines, start)->Ok_0.contains_key(k),
        records_from(lines, start)->Ok_0[k] == line_outcome(lines[j])->Found_0,
    decreases lines.len(),
{
    let rest = lines.drop_first();
    let next = match line_outcome(lines[0]) {
        Built::Found(record) => start.insert(record.identifier, record),
        _ => start,
    };
    assert forall|i: int| 0 <= i implies gives_record(rest, i, k) == gives_record(
        lines,
        i + 1,
        k,
    ) by {
        if i < rest.len() {
            assert(rest[i] == lines[i + 1]);
        }
    }
    if j == 0 {
        assert forall|i: int| !gives_record(rest, i, k) by {
            if 0 <= i {
                assert(!gives_record(lines, i + 1, k));
            }
        }
        lemma_lines_domain(rest, next, k);
    } else {
        assert(rest[j - 1] == lines[j]);
        assert forall|i: int| j - 1 < i implies !gives_record(rest, i, k) by {
            assert(!gives_record(lines, i + 1, k));
        }
        lemma_last_line_wins(rest, next, j - 1, k);
    }
}

proof fn lemma_fatal_line(lines: Seq<Seq<char>>, start: Mapping, j: int)
    requires
        0 <= j < lines.len(),
        line_outcome(lines[j]) is Fatal,
    ensures
        records_from(lines, start) is Err,
    decreases lines.len(),
{
    if j > 0 {
        let rest = lines.drop_first();
        assert(rest[j - 1] == lines[j]);
        match line_outcome(lines[0]) {
            Built::Skipped => lemma_fatal_line(rest, start, j - 1),
            Built::Fatal(_) => {},
            Built::Found(record) => lemma_fatal_line(
                rest,
                start.insert(record.identifier, record),
                j - 1,
            ),
        }
    }
}

proof fn lemma_merged_valid(kept: Mapping, seen: Mapping)
    requires
        valid_mapping(kept),
        valid_mapping(seen),
    ensures
        valid_mapping(merged(kept, seen)),
{
}

proof fn lemma_run_valid(files: Seq<Seq<u8>>, start: Mapping)
    requires
        valid_mapping(start),
        reduced_from(files, start) is Ok,
    ensures
        valid_mapping(reduced_from(files, start)->Ok_0),
    decreases files.len(),
{
    if files.len() > 0 {
        let seen = file_records(files[0])->Ok_0;
        law_file_identifiers(files[0]);
        lemma_merged_valid(start, seen);
        lemma_run_valid(files.drop_first(), merged(start, seen));
    }
}

proof fn lemma_failed_file(files: Seq<Seq<u8>>, start: Mapping, i: int)
    requires
        0 <= i < files.len(),
        file_records(files[i]) is Err,
    ensures
        reduced_from(files, start) is Err,
    decreases files.len(),
{
    if i > 0 && file_records(files[0]) is Ok {
        let rest = files.drop_first();
        assert(rest[i - 1] == files[i]);
        lemma_failed_file(rest, merged(start, file_records(files[0])->Ok_0), i - 1);
    }
}

proof fn lemma_run(files: Seq<Seq<u8>>, start: Mapping, k: Seq<char>)
    requires
        reduced_from(files, start) is Ok,
    ensures
        ({
            let made = reduced_from(files, start)->Ok_0;
            &&& made.contains_key(k) <==> start.contains_key(k) || exists|i: int|
                has_record(files, i, k)
            &&& forall|i: int| #[trigger]
                has_record(files, i, k) ==> record_in(files, i, k).timestamp <= made[k].timestamp
            &&& start.contains_key(k) ==> start[k].timestamp <= made[k].timestamp && made[k].slug
                == start[k].slug && made[k].identifier == start[k].identifier
            &&& made.contains_key(k) ==> (start.contains_key(k) && made[k].timestamp
                == start[k].timestamp) || exists|i: int|
                has_record(files, i, k) && record_in(files, i, k).timestamp == made[k].timestamp
            &&& !start.contains_key(k) ==> forall|i: int| #[trigger]
                first_with(files, i, k) ==> made[k].slug == record_in(files, i, k).slug
                    && made[k].identifier == record_in(files, i, k).identifier
        }),
    decreases files.len(),
{
    if files.len() > 0 {
        let seen = file_records(files[0])->Ok_0;
        let rest = files.drop_first();
        let next = merged(start, seen);
        let made = reduced_from(files, start)->Ok_0;
        lemma_run(rest, next, k);
        assert forall|i: int| 0 <= i implies has_record(rest, i, k) == has_record(
            files,
            i + 1,
            k,
        ) by {
            if i < rest.len() {
                assert(rest[i] == files[i + 1]);
            }
        }
        assert forall|i: int| has_record(rest, i, k) implies record_in(rest, i, k) == record_in(
            files,
            i + 1,
            k,
        ) by {
            assert(rest[i] == files[i + 1]);
        }
        assert(next.contains_key(k) <==> start.contains_key(k) || has_record(files, 0, k));
        if made.contains_key(k) && !start.contains_key(k) {
            if !has_record(files, 0, k) {
                let i = choose|i: int| has_record(rest, i, k);
                assert(has_record(files, i + 1, k));
            }
        }
        if exists|i: int| has_record(files, i, k) {
            let i = choose|i: int| has_record(files, i, k);
            if i > 0 {
                assert(has_record(rest, i - 1, k));
            }
        }
        assert forall|i: int| #[trigger] has_record(files, i, k) implies record_in(
            files,
            i,
            k,
        ).timestamp <= made[k].timestamp by {
            if i > 0 {
                assert(has_record(rest, i - 1, k));
                assert(record_in(rest, i - 1, k) == record_in(files, i, k));
            }
        }
        if made.contains_key(k) {
            if next.contains_key(k) && made[k].timestamp == next[k].timestamp {
                if !(start.contains_key(k) && made[k].timestamp == start[k].timestamp) {
                    assert(has_record(files, 0, k) && record_in(files, 0, k).timestamp
                        == made[k].timestamp);
                }
            } else {
                let i = choose|i: int|
                    has_record(rest, i, k) && record_in(rest, i, k).timestamp == made[k].timestamp;
                assert(has_record(files, i + 1, k) && record_in(files, i + 1, k).timestamp
                    == made[k].timestamp);
            }
        }
        if !start.contains_key(k) {
            assert forall|i: int| #[trigger] first_with(files, i, k) implies made[k].slug
                == record_in(files, i, k).slug && made[k].identifier == record_in(
                files,
                i,
                k,
            ).identifier by {
                if i > 0 {
                    assert(!has_record(files, 0, k));
                    assert(has_record(rest, i - 1, k));
                    assert(record_in(rest, i - 1, k) == record_in(files, i, k));
                    assert forall|j: int| 0 <= j < i - 1 implies !has_record(rest, j, k) by {
                        assert(!has_record(files, j + 1, k));
                    }
                    assert(first_with(rest, i - 1, k));
                }
            }
        }
    }
}

/// A matching line whose identifier has another length than nine gives no
/// record, and every record that a line gives has an identifier of nine
/// characters.
pub proof fn law_line_identifier(line: Seq<char>)
    ensures
        line_fields(line) matches Some(fields) && fields.identifier.len() != 9 ==> line_outcome(
            line,
        ) == Built::Skipped,
        line_outcome(line) matches Built::Found(record) ==> record.identifier.len() == 9,
{
}

/// Every record of a file stands under its own identifier, which has nine
/// characters.
pub proof fn law_text_identifiers(text: Seq<char>)
    requires
        text_records(text) is Ok,
    ensures
        valid_mapping(text_records(text)->Ok_0),
        forall|k: Seq<char>| #[trigger]
            text_records(text)->Ok_0.contains_key(k) ==> text_records(
                text,
            )->Ok_0[k].identifier.len() == 9,
{
    lemma_lines_valid(lines_of(text), Map::empty());
}

/// Every record of a file, given by its bytes, stands under its own
/// identifier, which has nine characters.
pub proof fn law_file_identifiers(bytes: Seq<u8>)
    requires
        file_records(bytes) is Ok,
    ensures
        valid_mapping(file_records(bytes)->Ok_0),
{
    law_text_identifiers(file_text(bytes)->Ok_0);
}

/// Every record of a run stands under its own identifier, which has nine
/// characters.
pub proof fn law_run_identifiers(files: Seq<Seq<u8>>)
    requires
        reduced(files) is Ok,
    ensures
        valid_mapping(reduced(files)->Ok_0),
        forall|k: Seq<char>| #[trigger]
            reduced(files)->Ok_0.contains_key(k) ==> reduced(files)->Ok_0[k].identifier.len()
                == 9,
{
    lemma_run_valid(files, Map::empty());
}

/// A file has a record for an identifier exactly where one of its lines gives
/// one.
pub proof fn law_file_domain(lines: Seq<Seq<char>>, k: Seq<char>)
    requires
        lines_records(lines) is Ok,
    ensures
        lines_records(lines)->Ok_0.contains_key(k) <==> exists|j: int| gives_record(lines, j, k),
{
    lemma_lines_domain(lines, Map::empty(), k);
}

/// Within a file the last line that gives a record for an identifier decides:
/// the file's record for it is exactly the record of that line, whatever the
/// times of the earlier ones.
pub proof fn law_last_line_wins(lines: Seq<Seq<char>>, j: int, k: Seq<char>)
    requires
        lines_records(lines) is Ok,
        gives_record(lines, j, k),
        forall|i: int| j < i ==> !gives_record(lines, i, k),
    ensures
        lines_records(lines)->Ok_0.contains_key(k),
        lines_records(lines)->Ok_0[k] == line_outcome(lines[j])->Found_0,
{
    lemma_last_line_wins(lines, Map::empty(), j, k);
}

/// A run has a record for an identifier exactly where one of its files has
/// one.
pub proof fn law_run_domain(files: Seq<Seq<u8>>, k: Seq<char>)
    requires
        reduced(files) is Ok,
    ensures
        reduced(files)->Ok_0.contains_key(k) <==> exists|i: int| has_record(files, i, k),
{
    lemma_run(files, Map::empty(), k);
}

/// The time that a run keeps for an identifier is the greatest of the times
/// that its files have for it: no file has a greater one, and some file has
/// this one.
pub proof fn law_newest_time(files: Seq<Seq<u8>>, k: Seq<char>)
    requires
        reduced(files) is Ok,
        reduced(files)->Ok_0.contains_key(k),
    ensures
        forall|i: int| #[trigger]
            has_record(files, i, k) ==> record_in(files, i, k).timestamp <= reduced(
                files,
            )->Ok_0[k].timestamp,
        exists|i: int|
            has_record(files, i, k) && record_in(files, i, k).timestamp == reduced(
                files,
            )->Ok_0[k].timestamp,
{
    lemma_run(files, Map::empty(), k);
}

/// The slug that a run keeps for an identifier is the slug of the first file
/// that has a record for it, whatever slugs and times later files have.
pub proof fn law_first_slug_stays(files: Seq<Seq<u8>>, i: int, k: Seq<char>)
    requires
        reduced(files) is Ok,
        first_with(files, i, k),
    ensures
        reduced(files)->Ok_0.contains_key(k),
        reduced(files)->Ok_0[k].slug == record_in(files, i, k).slug,
        reduced(files)->Ok_0[k].identifier == k,
{
    lemma_run(files, Map::empty(), k);
    law_run_identifiers(files);
}

/// A file of plain text has the records of a compressed file that holds the
/// same text.
pub proof fn law_plain_as_compressed(plain: Seq<u8>, compressed: Seq<u8>)
    requires
        gunzipped_text(plain) is None,
        valid_utf8(plain),
        gunzipped_text(compressed) == Some(decode_utf8(plain)),
    ensures
        file_text(plain) == file_text(compressed),
        file_records(plain) == file_records(compressed),
{
}

/// A line with a valid identifier and a timestamp that does not parse makes
/// the extraction of its file fail.
pub proof fn law_fatal_line_fails_file(lines: Seq<Seq<char>>, j: int)
    requires
        0 <= j < lines.len(),
        line_fields(lines[j]) matches Some(fields) && valid_identifier(fields.identifier)
            && parsed_seconds(fields.timestamp, timestamp_format()) is None,
    ensures
        lines_records(lines) is Err,
{
    lemma_fatal_line(lines, Map::empty(), j);
}

/// A file that fails makes the run fail, whatever the other files hold.
pub proof fn law_failed_file_fails_run(files: Seq<Seq<u8>>, i: int)
    requires
        0 <= i < files.len(),
        file_records(files[i]) is Err,
    ensures
        reduced(files) is Err,
{
    lemma_failed_file(files, Map::empty(), i);
}

/// One line, in any file of a run, with a valid identifier and a timestamp
/// that does not parse makes the whole run fail: no record is returned,
/// whatever the other lines and files hold.
pub proof fn law_fatal_line_fails_run(files: Seq<Seq<u8>>, i: int, j: int)
    requires
        0 <= i < files.len(),
        file_text(files[i]) is Ok,
        0 <= j < lines_of(file_text(files[i])->Ok_0).len(),
        line_fields(lines_of(file_text(files[i])->Ok_0)[j]) matches Some(fields)
            && valid_identifier(fields.identifier) && parsed_seconds(
            fields.timestamp,
            timestamp_format(),
        ) is None,
    ensures
        reduced(files) is Err,
{
    law_fatal_line_fails_file(lines_of(file_text(files[i])->Ok_0), j);
    law_failed_file_fails_run(files, i);
}

} // verus!
