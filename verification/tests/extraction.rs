use access_records::extract::{extract_line, extract_text};
use access_records::record::{ExtractError, Record};

fn line(timestamp: &str, identifier: &str, slug: &str) -> String {
    format!(
        "10.0.0.1 - - [{}] \"GET /observabilityapp/d/{}/{} HTTP/1.1\" 200 512",
        timestamp, identifier, slug
    )
}

#[test]
fn a_line_gives_its_record() {
    let made = extract_line(&line("10/Oct/2000:13:55:36 -0700", "AAABBBCCC", "foo"));
    assert_eq!(made, Ok(Some(Record::new(971211336, "AAABBBCCC", "foo").unwrap())));
}

#[test]
fn a_line_without_a_match_gives_nothing() {
    assert_eq!(extract_line("127.0.0.1 - - [10/Oct/2000:13:55:36 -0700] \"GET /index.html\""), Ok(None));
    assert_eq!(extract_line(""), Ok(None));
}

#[test]
fn a_line_with_an_identifier_of_another_length_gives_nothing() {
    assert_eq!(extract_line(&line("10/Oct/2000:13:55:36 -0700", "AAABBBCC", "foo")), Ok(None));
    assert_eq!(extract_line(&line("10/Oct/2000:13:55:36 -0700", "AAABBBCCCD", "foo")), Ok(None));
    assert_eq!(extract_line(&line("not a time", "AAABBBCCCD", "foo")), Ok(None));
}

#[test]
fn a_line_with_a_malformed_timestamp_is_a_failure() {
    assert_eq!(
        extract_line(&line("not a time", "AAABBBCCC", "foo")),
        Err(ExtractError::TimestampParseFailure("not a time".to_string())),
    );
}

#[test]
fn every_extracted_identifier_has_nine_characters() {
    let text = [
        line("10/Oct/2000:13:55:36 -0700", "AAABBBCCC", "a"),
        line("10/Oct/2000:13:55:36 -0700", "A", "b"),
        line("10/Oct/2000:13:55:36 -0700", "AAABBBCCCDDD", "c"),
        line("10/Oct/2000:13:55:36 -0700", "DDDEEEFFF", "d"),
        "noise".to_string(),
    ]
    .join("\n");
    let found = extract_text(&text).unwrap();
    assert_eq!(found.len(), 2);
    for record in found.records() {
        assert_eq!(record.identifier().chars().count(), 9);
    }
    assert!(found.contains_key("AAABBBCCC"));
    assert!(found.contains_key("DDDEEEFFF"));
    assert!(!found.contains_key("A"));
}

#[test]
fn within_a_file_the_second_line_of_an_identifier_wins() {
    let later_first = [
        line("10/Oct/2000:13:55:36 -0700", "AAABBBCCC", "first"),
        line("09/Oct/2000:13:55:36 -0700", "AAABBBCCC", "second"),
    ]
    .join("\n");
    let found = extract_text(&later_first).unwrap();
    assert_eq!(found.len(), 1);
    assert_eq!(
        found.get("AAABBBCCC"),
        Some(&Record::new(971211336 - 86400, "AAABBBCCC", "second").unwrap()),
    );
    let earlier_first = [
        line("09/Oct/2000:13:55:36 -0700", "AAABBBCCC", "first"),
        line("10/Oct/2000:13:55:36 -0700", "AAABBBCCC", "second"),
    ]
    .join("\r\n");
    let found = extract_text(&earlier_first).unwrap();
    assert_eq!(
        found.get("AAABBBCCC"),
        Some(&Record::new(971211336, "AAABBBCCC", "second").unwrap()),
    );
}

#[test]
fn a_text_without_matches_gives_an_empty_mapping() {
    assert_eq!(extract_text("").unwrap().len(), 0);
    assert_eq!(extract_text("one\ntwo\n\nthree").unwrap().len(), 0);
}

#[test]
fn the_first_malformed_timestamp_stops_the_file() {
    let text = [
        line("10/Oct/2000:13:55:36 -0700", "AAABBBCCC", "a"),
        line("bad one", "short", "b"),
        line("bad two", "DDDEEEFFF", "c"),
        line("bad three", "GGGHHHIII", "d"),
        line("10/Oct/2000:13:55:36 -0700", "JJJKKKLLL", "e"),
    ]
    .join("\n");
    match extract_text(&text) {
        Err(error) => assert_eq!(error, ExtractError::TimestampParseFailure("bad two".to_string())),
        Ok(_) => panic!("the extraction has to fail"),
    }
}

#[test]
fn a_match_does_not_reach_over_a_line_end() {
    let text = "[10/Oct/2000:13:55:36 -0700] \"GET /observabilityapp/d/AAABBB\nCCC/foo";
    assert_eq!(extract_text(text).unwrap().len(), 0);
    let text = "[10/Oct/2000:13:55:36 -0700] \"GET /observabilityapp/d/AAABBBCCC/foo\r\n";
    let found = extract_text(text).unwrap();
    assert_eq!(found.get("AAABBBCCC").unwrap().slug(), "foo");
}
