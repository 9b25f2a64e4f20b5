//! From the bytes of a file to its text and its records. A file holds text
//! either compressed, as a gzip stream, or plain, as UTF-8.

use vstd::prelude::*;
use vstd::string::StringExecFns;
use vstd::utf8::{decode_utf8, valid_utf8};
use crate::extract::{extract_text, text_records};
use crate::mapping::{Mapping, RecordMap};
use crate::record::{ExtractError, Failure};

verus! {

/// The text that `bytes` hold as a gzip stream, or `None` where they are no
/// gzip stream of text. This is what `flate2` decodes; nothing more is stated
/// of it here.
pub uninterp spec fn gunzipped_text(bytes: Seq<u8>) -> Option<Seq<char>>;

/// The text of a file with the given bytes: what they hold as a gzip stream
/// or, where they are none, what they are as UTF-8.
pub open spec fn file_text_with(unzipped: Option<Seq<char>>, bytes: Seq<u8>) -> Result<
    Seq<char>,
    Failure,
> {
    match unzipped {
        Some(text) => Ok(text),
        None => if valid_utf8(bytes) {
            Ok(decode_utf8(bytes))
        } else {
            Err(Failure::Decode)
        },
    }
}

/// The text of a file with the given bytes.
pub open spec fn file_text(bytes: Seq<u8>) -> Result<Seq<char>, Failure> {
    file_text_with(gunzipped_text(bytes), bytes)
}

/// The records of a file with the given bytes.
pub open spec fn file_records(bytes: Seq<u8>) -> Result<Mapping, Failure> {
    match file_text(bytes) {
        Ok(text) => text_records(text),
        Err(failure) => Err(failure),
    }
}

/// Reads `bytes` through a `flate2::read::GzDecoder` to their end, with
/// `std::io::Read::read_to_string`. The result is `gunzipped_text` of the
/// bytes: the string that was read where the reader gave no error, `None`
/// where it gave one.
#[verifier::external_body]
pub(crate) fn gunzip_text(bytes: &[u8]) -> (text: Option<String>)
    ensures
        text matches Some(t) ==> gunzipped_text(bytes@) == Some(t@),
        text is None ==> gunzipped_text(bytes@) is None,
{
    let mut decoder = flate2::read::GzDecoder::new(bytes);
    let mut text = String::new();
    match std::io::Read::read_to_string(&mut decoder, &mut text) {
        Ok(_) => Some(text),
        Err(_) => None,
    }
}

/// `std::str::from_utf8`: the bytes as text where they are valid UTF-8, and
/// `None` where they are not.
#[verifier::external_body]
pub(crate) fn utf8_text(bytes: &[u8]) -> (text: Option<&str>)
    ensures
        text is Some <==> valid_utf8(bytes@),
        text matches Some(t) ==> t@ == decode_utf8(bytes@),
{
    match std::str::from_utf8(bytes) {
        Ok(text) => Some(text),
        Err(_) => None,
    }
}

/// The text of a file, given its bytes and what they gave as a gzip stream.
pub fn contents_with(unzipped: Option<String>, bytes: &[u8]) -> (text: Result<String, ExtractError>)
    ensures
        match file_text_with(
            match unzipped {
                Some(t) => Some(t@),
                None => None,
            },
            bytes@,
        ) {
            Ok(t) => text matches Ok(got) && got@ == t,
            Err(failure) => text matches Err(error) && error@ == failure,
        },
{
    match unzipped {
        Some(text) => Ok(text),
        None => match utf8_text(bytes) {
            Some(plain) => Ok(String::from_str(plain)),
            None => Err(ExtractError::DecodeFailure),
        },
    }
}

/// The text of a file with the given bytes: decompressed where the bytes are
/// a gzip stream of text, else the bytes themselves as UTF-8. Bytes that are
/// neither are a failure.
pub fn read_contents(bytes: &[u8]) -> (text: Result<String, ExtractError>)
    ensures
        match file_text(bytes@) {
            Ok(t) => text matches Ok(got) && got@ == t,
            Err(failure) => text matches Err(error) && error@ == failure,
        },
{
    contents_with(gunzip_text(bytes), bytes)
}

/// The records of a file with the given bytes.
pub fn extract_file_info(bytes: &[u8]) -> (made: Result<RecordMap, ExtractError>)
    ensures
        match file_records(bytes@) {
            Ok(mapping) => made matches Ok(found) && found.wf() && found@ == mapping,
            Err(failure) => made matches Err(error) && error@ == failure,
        },
{
    match read_contents(bytes) {
        Ok(text) => extract_text(text.as_str()),
        Err(error) => Err(error),
    }
}

} // verus!
