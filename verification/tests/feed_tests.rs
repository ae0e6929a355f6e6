use dictfeed::feed::parse_feed;
use dictfeed::models::{ApiError, Topic};

fn feed_with(counters_row: &str, entry_rows: &[&str]) -> String {
    let titles = "id,sem_id,category,topic,sub_topic,sub_sub_topic,essential_flag,basic_flag,\
                  lat,iro,por,spa,cat,occ,fra,srd,ita,rom,eng,fol,frk,sla";
    let reserved = ",,,,,,,,,,,,,,,,,,,,,";
    let mut text = String::new();
    text.push_str(titles);
    text.push('\n');
    text.push_str(counters_row);
    text.push('\n');
    text.push_str(reserved);
    text.push('\n');
    for row in entry_rows {
        text.push_str(row);
        text.push('\n');
    }
    text
}

fn good_counters() -> &'static str {
    "100.000,50,,,,,,,1,2,3,4,5,6,7,8,9,10,11,12,13,14"
}

#[test]
fn counters_with_thousands_separator_parse() {
    let feed = feed_with(good_counters(), &[]);
    let (entries, counters) = parse_feed(&feed).unwrap();
    assert!(entries.is_empty());
    assert_eq!(counters.total, 100000);
    assert_eq!(counters.sem, 50);
    assert_eq!(counters.iro, 2);
    assert_eq!(counters.frk, 13);
}

#[test]
fn essential_and_basic_markers_become_flags() {
    let feed = feed_with(
        good_counters(),
        &[
            "1,,,,,,e,b,,,,,,,,,,,one,,,",
            "2,,,,,,,,,,,,,,,,,,two,,,",
            "3,,,,,,x,q,,,,,,,,,,,three,,,",
        ],
    );
    let (entries, _) = parse_feed(&feed).unwrap();
    let one = entries.iter().find(|e| e.id == 1).unwrap();
    assert!(one.essential_flag);
    assert!(one.basic_flag);
    // absent marker means false
    let two = entries.iter().find(|e| e.id == 2).unwrap();
    assert!(!two.essential_flag);
    assert!(!two.basic_flag);
    // any other value also means false
    let three = entries.iter().find(|e| e.id == 3).unwrap();
    assert!(!three.essential_flag);
    assert!(!three.basic_flag);
}

#[test]
fn malformed_rows_are_dropped_without_aborting() {
    let feed = feed_with(
        good_counters(),
        &[
            "1,,,,,,,,,,,,,,,,,,first,,,",
            "notanumber,,,,,,,,,,,,,,,,,,bad id,,,",
            "2,alsobad,,,,,,,,,,,,,,,,,bad sem,,,",
            "3,7,,,,,,,,,,,,,,,,,third,,,",
            "short,row",
        ],
    );
    let (entries, _) = parse_feed(&feed).unwrap();
    let mut ids: Vec<u32> = entries.iter().map(|e| e.id).collect();
    ids.sort();
    assert_eq!(ids, vec![1, 3]);
}

#[test]
fn unknown_topic_degrades_to_absent_but_row_is_kept() {
    let feed = feed_with(
        good_counters(),
        &[
            "1,,,galaxies,,,,,,,,,,,,,,,kept,,,",
            "2,,,food,,,,,,,,,,,,,,,pasta,,,",
        ],
    );
    let (entries, _) = parse_feed(&feed).unwrap();
    let one = entries.iter().find(|e| e.id == 1).unwrap();
    assert_eq!(one.topic, None);
    assert_eq!(one.eng, Some("kept".to_string()));
    let two = entries.iter().find(|e| e.id == 2).unwrap();
    assert_eq!(two.topic, Some(Topic::Food));
}

#[test]
fn plus_prefixed_numerals_parse() {
    let feed = feed_with(
        "+100.000,+50,,,,,,,1,2,3,4,5,6,7,8,9,10,11,12,13,14",
        &["+7,+3,,,,,,,,,,,,,,,,,plus,,,"],
    );
    let (entries, counters) = parse_feed(&feed).unwrap();
    assert_eq!(counters.total, 100000);
    assert_eq!(counters.sem, 50);
    assert_eq!(entries.len(), 1);
    assert_eq!(entries[0].id, 7);
    assert_eq!(entries[0].sem_id, Some(3));
    assert_eq!(entries[0].eng, Some("plus".to_string()));
}

#[test]
fn plus_sign_without_digits_is_malformed() {
    let feed = feed_with("+,50,,,,,,,1,2,3,4,5,6,7,8,9,10,11,12,13,14", &[]);
    assert_eq!(parse_feed(&feed), Err(ApiError::MalformedNumber));
    let feed = feed_with("++5,50,,,,,,,1,2,3,4,5,6,7,8,9,10,11,12,13,14", &[]);
    assert_eq!(parse_feed(&feed), Err(ApiError::MalformedNumber));
}

#[test]
fn rejected_counters_record_is_missing_headers() {
    // an uneven-width counters record is rejected by the tabular reader;
    // it keeps its place, so the parse reports the counters layout as
    // missing instead of reading the reserved row in its stead
    let titles = "id,sem_id,category,topic,sub_topic,sub_sub_topic,essential_flag,basic_flag,\
                  lat,iro,por,spa,cat,occ,fra,srd,ita,rom,eng,fol,frk,sla";
    let mut text = String::new();
    text.push_str(titles);
    text.push('\n');
    text.push_str("1,2,3\n");
    text.push_str(",,,,,,,,,,,,,,,,,,,,,\n");
    assert_eq!(parse_feed(&text), Err(ApiError::MissingHeaders));
}

#[test]
fn non_numeric_counter_cell_is_malformed_number() {
    let feed = feed_with("100.000,abc,,,,,,,1,2,3,4,5,6,7,8,9,10,11,12,13,14", &[]);
    assert_eq!(parse_feed(&feed), Err(ApiError::MalformedNumber));
}

#[test]
fn empty_counter_cell_is_malformed_number() {
    let feed = feed_with("100.000,,,,,,,,1,2,3,4,5,6,7,8,9,10,11,12,13,14", &[]);
    assert_eq!(parse_feed(&feed), Err(ApiError::MalformedNumber));
}

#[test]
fn missing_counter_columns_are_missing_headers() {
    // a feed whose layout is too narrow lacks required counter columns
    let text = "id,sem_id,category\n1,2,3\n,,\n";
    assert_eq!(parse_feed(text), Err(ApiError::MissingHeaders));
}

#[test]
fn feed_without_counters_row_is_missing_headers() {
    let text = "id,sem_id,category,topic\n";
    assert_eq!(parse_feed(text), Err(ApiError::MissingHeaders));
}

#[test]
fn duplicate_ids_keep_the_last_row() {
    let feed = feed_with(
        good_counters(),
        &[
            "5,,,,,,,,,,,,,,,,,,older,,,",
            "5,,,,,,,,,,,,,,,,,,newer,,,",
        ],
    );
    let (entries, _) = parse_feed(&feed).unwrap();
    assert_eq!(entries.len(), 1);
    assert_eq!(entries[0].id, 5);
    assert_eq!(entries[0].eng, Some("newer".to_string()));
}

#[test]
fn empty_sem_id_cell_means_ungrouped() {
    let feed = feed_with(good_counters(), &["9,,,,,,,,,,,,,,,,,,solo,,,"]);
    let (entries, _) = parse_feed(&feed).unwrap();
    assert_eq!(entries[0].sem_id, None);
}

#[test]
fn quoted_cells_with_commas_are_single_cells() {
    // exercises the tabular splitting itself: a quoted cell holding a comma
    // must stay one cell, or the row would be twenty-three cells wide
    let feed = feed_with(
        good_counters(),
        &["4,,,,,,,,,,,,,,,,,,\"water, still\",,,"],
    );
    let (entries, _) = parse_feed(&feed).unwrap();
    assert_eq!(entries.len(), 1);
    assert_eq!(entries[0].eng, Some("water, still".to_string()));
}

#[test]
fn huge_id_is_dropped_as_malformed() {
    // 4294967296 does not fit in u32, so the row fails structural decoding
    let feed = feed_with(
        good_counters(),
        &[
            "4294967296,,,,,,,,,,,,,,,,,,too big,,,",
            "4294967295,,,,,,,,,,,,,,,,,,fits,,,",
        ],
    );
    let (entries, _) = parse_feed(&feed).unwrap();
    assert_eq!(entries.len(), 1);
    assert_eq!(entries[0].id, u32::MAX);
}
