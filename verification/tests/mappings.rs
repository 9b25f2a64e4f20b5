use access_records::mapping::RecordMap;
use access_records::record::Record;

fn record(timestamp: u32, identifier: &str, slug: &str) -> Record {
    Record::new(timestamp, identifier, slug).expect("a valid identifier")
}

fn listed(mapping: &RecordMap) -> Vec<(String, String, u32)> {
    mapping
        .records()
        .iter()
        .map(|r| (r.identifier().to_string(), r.slug().to_string(), r.timestamp()))
        .collect()
}

#[test]
fn a_new_mapping_is_empty() {
    let mapping = RecordMap::new();
    assert_eq!(mapping.len(), 0);
    assert!(!mapping.contains_key("AAABBBCCC"));
    assert!(mapping.get("AAABBBCCC").is_none());
    assert!(mapping.records().is_empty());
}

#[test]
fn an_inserted_record_takes_the_place_of_the_one_before() {
    let mut mapping = RecordMap::new();
    mapping.insert(record(20, "AAABBBCCC", "foo"));
    mapping.insert(record(10, "AAABBBCCC", "bar"));
    assert_eq!(mapping.len(), 1);
    assert!(mapping.contains_key("AAABBBCCC"));
    assert_eq!(mapping.get("AAABBBCCC"), Some(&record(10, "AAABBBCCC", "bar")));
}

#[test]
fn records_are_listed_in_the_order_of_their_first_coming() {
    let mut mapping = RecordMap::new();
    mapping.insert(record(1, "CCCCCCCCC", "c"));
    mapping.insert(record(2, "AAAAAAAAA", "a"));
    mapping.insert(record(3, "BBBBBBBBB", "b"));
    mapping.insert(record(4, "AAAAAAAAA", "a2"));
    assert_eq!(mapping.len(), 3);
    assert_eq!(
        listed(&mapping),
        vec![
            ("CCCCCCCCC".to_string(), "c".to_string(), 1),
            ("AAAAAAAAA".to_string(), "a2".to_string(), 4),
            ("BBBBBBBBB".to_string(), "b".to_string(), 3),
        ],
    );
}

#[test]
fn a_merged_record_with_a_new_identifier_comes_in_as_it_is() {
    let mut mapping = RecordMap::new();
    mapping.merge_record(&record(5, "AAABBBCCC", "foo"));
    assert_eq!(mapping.get("AAABBBCCC"), Some(&record(5, "AAABBBCCC", "foo")));
}

#[test]
fn a_newer_merged_record_moves_the_time_and_keeps_the_slug() {
    let mut mapping = RecordMap::new();
    mapping.merge_record(&record(5, "AAABBBCCC", "foo"));
    mapping.merge_record(&record(9, "AAABBBCCC", "bar"));
    assert_eq!(mapping.get("AAABBBCCC"), Some(&record(9, "AAABBBCCC", "foo")));
    assert_eq!(mapping.len(), 1);
}

#[test]
fn an_older_or_equal_merged_record_changes_nothing() {
    let mut mapping = RecordMap::new();
    mapping.merge_record(&record(5, "AAABBBCCC", "foo"));
    mapping.merge_record(&record(4, "AAABBBCCC", "bar"));
    assert_eq!(mapping.get("AAABBBCCC"), Some(&record(5, "AAABBBCCC", "foo")));
    mapping.merge_record(&record(5, "AAABBBCCC", "baz"));
    assert_eq!(mapping.get("AAABBBCCC"), Some(&record(5, "AAABBBCCC", "foo")));
}

#[test]
fn mappings_merge_record_by_record() {
    let mut total = RecordMap::new();
    total.insert(record(10, "AAAAAAAAA", "a"));
    total.insert(record(10, "BBBBBBBBB", "b"));
    let mut seen = RecordMap::new();
    seen.insert(record(20, "BBBBBBBBB", "b2"));
    seen.insert(record(5, "AAAAAAAAA", "a2"));
    seen.insert(record(7, "CCCCCCCCC", "c"));
    total.merge(&seen);
    assert_eq!(
        listed(&total),
        vec![
            ("AAAAAAAAA".to_string(), "a".to_string(), 10),
            ("BBBBBBBBB".to_string(), "b".to_string(), 20),
            ("CCCCCCCCC".to_string(), "c".to_string(), 7),
        ],
    );
    assert_eq!(seen.len(), 3);
}

#[test]
fn merging_an_empty_mapping_changes_nothing() {
    let mut total = RecordMap::new();
    total.insert(record(10, "AAAAAAAAA", "a"));
    total.merge(&RecordMap::new());
    assert_eq!(listed(&total), vec![("AAAAAAAAA".to_string(), "a".to_string(), 10)]);
    let mut empty = RecordMap::new();
    empty.merge(&total);
    assert_eq!(listed(&empty), listed(&total));
}
