//! The records of a run: the records of its files, merged in the order of the
//! files.

use vstd::prelude::*;
use crate::decode::{extract_file_info, file_records};
use crate::mapping::{merged, Mapping, RecordMap};
use crate::record::{ExtractError, Failure};

verus! {

/// The bytes of each file.
pub open spec fn contents_of(files: Seq<Vec<u8>>) -> Seq<Seq<u8>> {
    Seq::new(files.len(), |i: int| files[i]@)
}

/// The mapping `start` after the records of each file were merged into it in
/// order, or the failure of the first file that has one.
pub open spec fn reduced_from(files: Seq<Seq<u8>>, start: Mapping) -> Result<Mapping, Failure>
    decreases files.len(),
{
    if files.len() == 0 {
        Ok(start)
    } else {
        match file_records(files[0]) {
            Err(failure) => Err(failure),
            Ok(seen) => reduced_from(files.drop_first(), merged(start, seen)),
        }
    }
}

/// The records of a run over the given files.
pub open spec fn reduced(files: Seq<Seq<u8>>) -> Result<Mapping, Failure> {
    reduced_from(files, Map::empty())
}

/// Takes one more file into the records of a run. Where the file has a
/// failure, the records stay as they were.
pub fn absorb_file(total: &mut RecordMap, bytes: &[u8]) -> (done: Result<(), ExtractError>)
    requires
        old(total).wf(),
    ensures
        final(total).wf(),
        match file_records(bytes@) {
            Ok(seen) => done is Ok && final(total)@ == merged(old(total)@, seen),
            Err(failure) => done matches Err(error) && error@ == failure && final(total)@ == old(
                total,
            )@,
        },
{
    match extract_file_info(bytes) {
        Ok(seen) => {
            total.merge(&seen);
            Ok(())
        },
        Err(error) => Err(error),
    }
}

/// The records of a run over the given files, taken in their order: for each
/// identifier the record of the first file that has it, moved to the newest
/// time that any file has for it. The first file with a failure stops the
/// run, and nothing is returned but that failure.
pub fn parse_dir(files: &Vec<Vec<u8>>) -> (made: Result<RecordMap, ExtractError>)
    ensures
        match reduced(contents_of(files@)) {
            Ok(mapping) => made matches Ok(total) && total.wf() && total@ == mapping,
            Err(failure) => made matches Err(error) && error@ == failure,
        },
{
    let mut total = RecordMap::new();
    let ghost all = contents_of(files@);
    let mut i: usize = 0;
    proof {
        assert(all.subrange(0, all.len() as int) =~= all);
    }
    while i < files.len()
        invariant
            i <= files.len(),
            all == contents_of(files@),
            total.wf(),
            reduced(all) == reduced_from(all.subrange(i as int, all.len() as int), total@),
        decreases files.len() - i,
    {
        proof {
            let rest = all.subrange(i as int, all.len() as int);
            assert(rest[0] == files@[i as int]@);
            assert(rest.drop_first() =~= all.subrange(i + 1, all.len() as int));
        }
        match absorb_file(&mut total, files[i].as_slice()) {
            Ok(_) => {},
            Err(error) => {
                return Err(error);
            },
        }
        i += 1;
    }
    Ok(total)
}

} // verus!
