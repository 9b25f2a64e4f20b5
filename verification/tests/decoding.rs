use access_records::decode::{contents_with, extract_file_info, read_contents};
use access_records::record::{ExtractError, Record};
use flate2::write::GzEncoder;
use flate2::Compression;
use std::io::Write;

fn compressed(text: &str) -> Vec<u8> {
    let mut encoder = GzEncoder::new(Vec::new(), Compression::default());
    encoder.write_all(text.as_bytes()).unwrap();
    encoder.finish().unwrap()
}

const LOG: &str = "10.0.0.1 - - [10/Oct/2000:13:55:36 -0700] \"GET /observabilityapp/d/AAABBBCCC/foo HTTP/1.1\" 200 1\n\
10.0.0.2 - - [10/Oct/2000:13:55:37 -0700] \"GET /index.html HTTP/1.1\" 200 1\n\
10.0.0.3 - - [10/Oct/2000:13:55:38 -0700] \"GET /observabilityapp/d/DDDEEEFFF/b\u{e4}r?x=1 HTTP/1.1\" 200 1\n";

#[test]
fn compressed_bytes_are_decompressed() {
    let bytes = compressed(LOG);
    assert_ne!(bytes, LOG.as_bytes());
    assert_eq!(read_contents(&bytes), Ok(LOG.to_string()));
    assert_eq!(read_contents(&compressed("")), Ok(String::new()));
}

#[test]
fn plain_bytes_are_taken_as_text() {
    assert_eq!(read_contents(LOG.as_bytes()), Ok(LOG.to_string()));
    assert_eq!(read_contents(b"hello"), Ok("hello".to_string()));
    assert_eq!(read_contents(b""), Ok(String::new()));
}

#[test]
fn bytes_that_are_neither_are_a_failure() {
    assert_eq!(read_contents(&[0xff, 0xfe, 0x00]), Err(ExtractError::DecodeFailure));
    assert_eq!(read_contents(&[0xc3]), Err(ExtractError::DecodeFailure));
    let mut broken = compressed(LOG);
    broken.truncate(broken.len() / 2);
    assert_eq!(read_contents(&broken), Err(ExtractError::DecodeFailure));
}

#[test]
fn compressed_bytes_that_hold_no_text_are_a_failure() {
    let mut encoder = GzEncoder::new(Vec::new(), Compression::default());
    encoder.write_all(&[0x61, 0xff, 0x62]).unwrap();
    let bytes = encoder.finish().unwrap();
    assert_eq!(read_contents(&bytes), Err(ExtractError::DecodeFailure));
}

#[test]
fn decompressed_text_goes_before_the_bytes() {
    assert_eq!(contents_with(Some("inner".to_string()), b"outer"), Ok("inner".to_string()));
    assert_eq!(contents_with(Some("inner".to_string()), &[0xff]), Ok("inner".to_string()));
    assert_eq!(contents_with(None, b"outer"), Ok("outer".to_string()));
    assert_eq!(contents_with(None, "\u{4e16}".as_bytes()), Ok("\u{4e16}".to_string()));
    assert_eq!(contents_with(None, &[0xff]), Err(ExtractError::DecodeFailure));
}

#[test]
fn a_plain_file_has_the_records_of_a_compressed_file_of_the_same_text() {
    let plain = extract_file_info(LOG.as_bytes()).unwrap();
    let packed = extract_file_info(&compressed(LOG)).unwrap();
    assert_eq!(plain.records(), packed.records());
    assert_eq!(
        plain.records(),
        vec![
            Record::new(971211336, "AAABBBCCC", "foo").unwrap(),
            Record::new(971211338, "DDDEEEFFF", "b\u{e4}r").unwrap(),
        ],
    );
}

#[test]
fn a_file_that_does_not_decode_has_no_records() {
    match extract_file_info(&[0x80, 0x81]) {
        Err(error) => assert_eq!(error, ExtractError::DecodeFailure),
        Ok(_) => panic!("the extraction has to fail"),
    }
}

#[test]
fn a_malformed_timestamp_in_a_compressed_file_is_a_failure() {
    let text = "[soon] \"GET /observabilityapp/d/AAABBBCCC/foo";
    for bytes in [text.as_bytes().to_vec(), compressed(text)] {
        match extract_file_info(&bytes) {
            Err(error) => assert_eq!(error, ExtractError::TimestampParseFailure("soon".to_string())),
            Ok(_) => panic!("the extraction has to fail"),
        }
    }
}
