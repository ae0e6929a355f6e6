use dictfeed::models::{ApiError, Entry, LanguageCode, Topic};
use dictfeed::store::Dictionary;

/// A feed with the fixed 22-column layout: a title row, a counters row,
/// a reserved row, then the given entry rows.
fn feed_with(counters_row: &str, entry_rows: &[&str]) -> String {
    let titles = "id,sem_id,category,topic,sub_topic,sub_sub_topic,essential_flag,basic_flag,\
                  lat,iro,por,spa,cat,occ,fra,srd,ita,rom,eng,fol,frk,sla";
    let reserved = ",,,,,,,,,,,,,,,,,,,,,";
    let mut text = String::new();
    text.push_str(titles);
    text.push('\n');
    text.push_str(counters_row);
    text.push('\n');
    text.push_str(reserved);
    text.push('\n');
    for row in entry_rows {
        text.push_str(row);
        text.push('\n');
    }
    text
}

fn good_counters() -> &'static str {
    "100.000,50,,,,,,,1,2,3,4,5,6,7,8,9,10,11,12,13,14"
}

/// Three entries: two in semantic cluster 10, one ungrouped; two topics.
fn sample_rows() -> Vec<&'static str> {
    vec![
        "1,10,noun,nature,weather,rain,e,,aqua,,agua,agua,aigua,aiga,eau,abba,acqua,apa,water,,,",
        "2,10,noun,animals,,,,b,canis,,cao,perro,gos,can,chien,cane,cane,caine,dog,,,",
        "3,,verb,unknowntopic,,,x,y,,,,,,,,,,,run,,,",
    ]
}

fn sample_dict() -> Dictionary {
    let feed = feed_with(good_counters(), &sample_rows());
    Dictionary::from_feed("http://feed.example/dict.csv".to_string(), Ok(feed)).unwrap()
}

#[test]
fn get_returns_entry_with_requested_id() {
    let dict = sample_dict();
    for id in [1u32, 2, 3] {
        let e = dict.get_entry(id).unwrap();
        assert_eq!(e.id, id);
    }
}

#[test]
fn get_missing_id_fails_with_entry_not_found() {
    let dict = sample_dict();
    assert_eq!(dict.get_entry(999), Err(ApiError::EntryNotFound(999)));
}

#[test]
fn search_without_filters_returns_whole_set() {
    let dict = sample_dict();
    let all = dict.search(None, vec![], None, vec![]).unwrap();
    let mut ids: Vec<u32> = all.iter().map(|e| e.id).collect();
    ids.sort();
    assert_eq!(ids, vec![1, 2, 3]);
}

#[test]
fn search_by_sem_id_returns_only_that_cluster() {
    let dict = sample_dict();
    let hits = dict.search(None, vec![], Some(10), vec![]).unwrap();
    let mut ids: Vec<u32> = hits.iter().map(|e| e.id).collect();
    ids.sort();
    assert_eq!(ids, vec![1, 2]);
    for e in &hits {
        assert_eq!(e.sem_id, Some(10));
    }
}

#[test]
fn search_by_sem_id_excludes_ungrouped_entries() {
    // id 3 has no sem_id: it must not match any requested cluster,
    // even one that matches nothing else.
    let dict = sample_dict();
    let hits = dict.search(None, vec![], Some(777), vec![]).unwrap();
    assert!(hits.is_empty());
}

#[test]
fn search_by_topic_returns_only_that_topic() {
    let dict = sample_dict();
    let hits = dict.search(None, vec![], None, vec![Topic::Nature]).unwrap();
    assert_eq!(hits.len(), 1);
    assert_eq!(hits[0].id, 1);
    assert_eq!(hits[0].topic, Some(Topic::Nature));
}

#[test]
fn search_by_text_defaults_to_every_language() {
    let dict = sample_dict();
    let hits = dict.search(Some("eau".to_string()), vec![], None, vec![]).unwrap();
    assert_eq!(hits.len(), 1);
    assert_eq!(hits[0].id, 1);
}

#[test]
fn search_by_text_respects_language_list() {
    let dict = sample_dict();
    // "eau" is the French text of entry 1; searching only English finds nothing.
    let hits = dict
        .search(Some("eau".to_string()), vec![LanguageCode::Eng], None, vec![])
        .unwrap();
    assert!(hits.is_empty());
    let hits = dict
        .search(Some("eau".to_string()), vec![LanguageCode::Fra], None, vec![])
        .unwrap();
    assert_eq!(hits.len(), 1);
    assert_eq!(hits[0].id, 1);
}

#[test]
fn text_match_is_exact_and_case_sensitive() {
    let dict = sample_dict();
    let upper = dict.search(Some("Water".to_string()), vec![], None, vec![]).unwrap();
    assert!(upper.is_empty());
    let prefix = dict.search(Some("wat".to_string()), vec![], None, vec![]).unwrap();
    assert!(prefix.is_empty());
    let exact = dict.search(Some("water".to_string()), vec![], None, vec![]).unwrap();
    assert_eq!(exact.len(), 1);
}

#[test]
fn search_combines_all_filters() {
    let dict = sample_dict();
    let hits = dict
        .search(Some("dog".to_string()), vec![], Some(10), vec![Topic::Animals])
        .unwrap();
    assert_eq!(hits.len(), 1);
    assert_eq!(hits[0].id, 2);
    let none = dict
        .search(Some("dog".to_string()), vec![], Some(10), vec![Topic::Nature])
        .unwrap();
    assert!(none.is_empty());
}

#[test]
fn failed_fetch_on_update_leaves_state_unchanged() {
    let mut dict = sample_dict();
    let before_1: Entry = dict.get_entry(1).unwrap();
    let before_counters = dict.counters;
    let r = dict.update(Err(ApiError::FetchFailed));
    assert_eq!(r, Err(ApiError::FetchFailed));
    assert_eq!(dict.get_entry(1).unwrap(), before_1);
    assert_eq!(dict.counters, before_counters);
    let all = dict.search(None, vec![], None, vec![]).unwrap();
    assert_eq!(all.len(), 3);
}

#[test]
fn failed_parse_on_update_leaves_state_unchanged() {
    let mut dict = sample_dict();
    let before_1: Entry = dict.get_entry(1).unwrap();
    let before_counters = dict.counters;
    let bad = feed_with(
        "12x,50,,,,,,,1,2,3,4,5,6,7,8,9,10,11,12,13,14",
        &["7,,,,,,,,,,,,,,,,,,hello,,,"],
    );
    let r = dict.update(Ok(bad));
    assert_eq!(r, Err(ApiError::MalformedNumber));
    assert_eq!(dict.get_entry(1).unwrap(), before_1);
    assert_eq!(dict.counters, before_counters);
    assert_eq!(dict.get_entry(7), Err(ApiError::EntryNotFound(7)));
}

#[test]
fn successful_update_replaces_whole_dataset() {
    let mut dict = sample_dict();
    let new_feed = feed_with(
        "7,1,,,,,,,0,0,0,0,0,0,0,0,0,0,0,0,0,0",
        &["42,5,,food,,,,,panis,,,pan,pa,pan,pain,pane,pane,paine,bread,,,"],
    );
    let r = dict.update(Ok(new_feed));
    assert_eq!(r, Ok(()));
    // nothing of the old dataset survives
    assert_eq!(dict.get_entry(1), Err(ApiError::EntryNotFound(1)));
    assert_eq!(dict.get_entry(2), Err(ApiError::EntryNotFound(2)));
    // the new dataset is fully visible
    let e = dict.get_entry(42).unwrap();
    assert_eq!(e.eng, Some("bread".to_string()));
    assert_eq!(dict.counters.total, 7);
    let all = dict.search(None, vec![], None, vec![]).unwrap();
    assert_eq!(all.len(), 1);
}

#[test]
fn construction_fails_on_fetch_error() {
    let r = Dictionary::from_feed("u".to_string(), Err(ApiError::FetchFailed));
    assert!(matches!(r, Err(ApiError::FetchFailed)));
}

#[test]
fn construction_keeps_url_and_counters() {
    let dict = sample_dict();
    assert_eq!(dict.url, "http://feed.example/dict.csv");
    assert_eq!(dict.counters.total, 100000);
    assert_eq!(dict.counters.sem, 50);
    assert_eq!(dict.counters.lat, 1);
    assert_eq!(dict.counters.sla, 14);
}
