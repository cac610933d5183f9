use dltui::codec::{LogLevel, MessageType, Timestamp};
use dltui::dlt_file::DltFile;
use dltui::error::Error;
use dltui::filter::criteria::FilterCriteria;
use dltui::filter::engine::FilterEngine;
use dltui::index::Index;
use dltui::search::engine::SearchEngine;

fn pad4(s: &str) -> [u8; 4] {
    let mut a = [0u8; 4];
    for (i, b) in s.bytes().enumerate().take(4) {
        a[i] = b;
    }
    a
}

fn make_record(
    ts_s: u32,
    ts_us: u32,
    ecu: &str,
    app: &str,
    ctx: &str,
    level: u8,
    text: &str,
) -> Vec<u8> {
    let mut v = Vec::new();
    v.extend_from_slice(b"DLT\x01");
    v.extend_from_slice(&ts_s.to_be_bytes());
    v.extend_from_slice(&ts_us.to_be_bytes());
    v.extend_from_slice(&pad4(ecu));
    let payload = text.as_bytes();
    let length: u16 = (30 + payload.len()) as u16;
    v.push(0x21);
    v.push(0);
    v.extend_from_slice(&length.to_le_bytes());
    v.push(level << 4);
    v.push(1);
    v.extend_from_slice(&pad4(app));
    v.extend_from_slice(&pad4(ctx));
    v.extend_from_slice(payload);
    v
}

fn file_one() -> Vec<u8> {
    let mut v = make_record(100, 0, "ECU1", "APP1", "CTX1", 4, "hello world");
    v.extend_from_slice(&make_record(101, 500, "ECU1", "APP2", "CTX1", 2, "boom"));
    v
}

#[test]
fn two_records_are_indexed() {
    let file = DltFile::new("f1".to_string(), file_one());
    assert_eq!(file.message_count(), 2);
    assert_eq!(file.path().as_str(), "f1");
    let m0 = file.get_message(0).unwrap();
    let m1 = file.get_message(1).unwrap();
    assert_eq!(m0.app_id(), Some("APP1".to_string()));
    assert_eq!(m0.payload_text.as_deref(), Some("hello world"));
    assert_eq!(m1.app_id(), Some("APP2".to_string()));
    assert_eq!(m1.payload_text.as_deref(), Some("boom"));
}

#[test]
fn out_of_bounds_position_is_not_found() {
    let file = DltFile::new("f1".to_string(), file_one());
    assert!(matches!(file.get_message(2), Err(Error::NotFound { index: 2 })));
}

#[test]
fn get_messages_returns_dense_range() {
    let file = DltFile::new("f1".to_string(), file_one());
    let all = file.get_messages(0, 10).unwrap();
    assert_eq!(all.len(), 2);
    assert_eq!(all[1].payload_text.as_deref(), Some("boom"));
    let tail = file.get_messages(1, 1).unwrap();
    assert_eq!(tail.len(), 1);
    assert_eq!(tail[0].app_id(), Some("APP2".to_string()));
    assert!(file.get_messages(5, 3).unwrap().is_empty());
}

#[test]
fn empty_file_has_no_messages() {
    let file = DltFile::new("empty".to_string(), Vec::new());
    assert_eq!(file.message_count(), 0);
    let engine = FilterEngine::new(FilterCriteria::new());
    assert!(engine.apply(&file).is_empty());
    let search = SearchEngine::new("x").unwrap();
    assert!(search.search(&file).is_empty());
}

#[test]
fn garbage_only_file_has_no_messages() {
    let file = DltFile::new("junk".to_string(), vec![0xFF; 64]);
    assert_eq!(file.message_count(), 0);
}

#[test]
fn junk_prefix_is_skipped() {
    let mut data = vec![0xFF];
    data.extend_from_slice(&file_one());
    let file = DltFile::new("f2".to_string(), data);
    assert_eq!(file.message_count(), 2);
    let m0 = file.get_message(0).unwrap();
    assert_eq!(m0.payload_text.as_deref(), Some("hello world"));
    let m1 = file.get_message(1).unwrap();
    assert_eq!(m1.payload_text.as_deref(), Some("boom"));
}

#[test]
fn garbage_between_records_is_absent_from_both() {
    let first = make_record(1, 0, "ECU1", "APP1", "CTX1", 4, "one");
    let second = make_record(2, 0, "ECU1", "APP2", "CTX1", 4, "two");
    let mut data = first.clone();
    data.extend_from_slice(&[0x00, 0x01, 0x02, 0xEE]);
    data.extend_from_slice(&second);
    let file = DltFile::new("gap".to_string(), data);
    assert_eq!(file.message_count(), 2);
    assert_eq!(file.get_message(0).unwrap().payload_text.as_deref(), Some("one"));
    assert_eq!(file.get_message(1).unwrap().payload_text.as_deref(), Some("two"));
}

#[test]
fn zeroed_length_field_still_finds_both_records() {
    let mut data = file_one();
    let second_start = make_record(100, 0, "ECU1", "APP1", "CTX1", 4, "hello world").len();
    data[second_start + 18] = 0;
    data[second_start + 19] = 0;
    let file = DltFile::new("f3".to_string(), data);
    assert_eq!(file.message_count(), 2);
    let m1 = file.get_message(1).unwrap();
    assert_eq!(m1.app_id(), Some("APP2".to_string()));
    assert!(m1.payload.is_empty());
}

#[test]
fn truncated_final_record_is_excluded() {
    let record = make_record(5, 0, "ECU1", "APP1", "CTX1", 4, "truncated tail text");
    // Fewer than 16 bytes of the record remain: the scan stops before
    // recording anything.
    let file = DltFile::new("cut".to_string(), record[..12].to_vec());
    assert_eq!(file.message_count(), 0);
}

#[test]
fn truncated_final_record_with_headers_fails_to_parse() {
    let record = make_record(5, 0, "ECU1", "APP1", "CTX1", 4, "truncated tail text");
    // Enough bytes remain for the headers, but the declared length
    // exceeds them: the position is recorded, the parse reports it.
    let data = record[..record.len() - 10].to_vec();
    let file = DltFile::new("cut2".to_string(), data);
    assert_eq!(file.message_count(), 1);
    assert!(matches!(file.get_message(0), Err(Error::Format { index: 0 })));
}

#[test]
fn zero_length_record_advances_one_byte() {
    let mut record = make_record(5, 0, "ECU1", "APP1", "CTX1", 4, "x");
    record[18] = 0;
    record[19] = 0;
    let file = DltFile::new("zero".to_string(), record);
    assert_eq!(file.message_count(), 1);
}

#[test]
fn filter_by_app_id() {
    let file = DltFile::new("f1".to_string(), file_one());
    let criteria = FilterCriteria::new().with_app_id("APP2".to_string());
    let engine = FilterEngine::new(criteria);
    assert_eq!(engine.apply(&file), vec![1]);
}

#[test]
fn filter_with_empty_criteria_keeps_everything() {
    let file = DltFile::new("f1".to_string(), file_one());
    let engine = FilterEngine::new(FilterCriteria::new());
    assert_eq!(engine.apply(&file), vec![0, 1]);
}

#[test]
fn filter_by_log_level_and_type() {
    let file = DltFile::new("f1".to_string(), file_one());
    let engine = FilterEngine::new(FilterCriteria::new().with_log_level(LogLevel::Error));
    assert_eq!(engine.apply(&file), vec![1]);
    let engine = FilterEngine::new(FilterCriteria::new().with_message_type(MessageType::Control));
    assert_eq!(engine.apply(&file), Vec::<usize>::new());
}

#[test]
fn filter_by_time_range() {
    let file = DltFile::new("f1".to_string(), file_one());
    let start = Timestamp::from_parts(100, 0);
    let end = Timestamp::from_parts(100, 0);
    let engine = FilterEngine::new(FilterCriteria::new().with_time_range(start, end));
    assert_eq!(engine.apply(&file), vec![0]);
}

#[test]
fn filter_by_text_pattern() {
    let file = DltFile::new("f1".to_string(), file_one());
    let criteria = FilterCriteria::new().with_text_pattern("wor.d").unwrap();
    let engine = FilterEngine::new(criteria);
    assert_eq!(engine.apply(&file), vec![0]);
    assert!(matches!(
        FilterCriteria::new().with_text_pattern("["),
        Err(Error::RegexCompile)
    ));
}

#[test]
fn criteria_matches_and_clear() {
    let file = DltFile::new("f1".to_string(), file_one());
    let m0 = file.get_message(0).unwrap();
    let mut criteria = FilterCriteria::new().with_context_id("CTX1".to_string());
    assert!(criteria.matches(&m0));
    criteria = criteria.with_app_id("APP2".to_string());
    assert!(!criteria.matches(&m0));
    assert!(!criteria.is_empty());
    criteria.clear();
    assert!(criteria.is_empty());
    assert!(criteria.matches(&m0));
}

#[test]
fn dlt_file_filter_matches_engine() {
    let file = DltFile::new("f1".to_string(), file_one());
    let criteria = FilterCriteria::new().with_app_id("APP1".to_string());
    assert_eq!(file.filter(&criteria), vec![0]);
}

#[test]
fn search_payload_and_fields() {
    let file = DltFile::new("f1".to_string(), file_one());
    let engine = SearchEngine::new("hello").unwrap();
    assert_eq!(engine.search(&file), vec![0]);
    // The ECU identifier is searched as well, even when payload text exists.
    let engine = SearchEngine::new("ECU1").unwrap();
    assert_eq!(engine.search(&file), vec![0, 1]);
    let engine = SearchEngine::new("APP2").unwrap();
    assert_eq!(engine.search(&file), vec![1]);
}

#[test]
fn search_case_sensitivity() {
    let file = DltFile::new("f1".to_string(), file_one());
    let sensitive = SearchEngine::with_case_sensitivity("HELLO", true).unwrap();
    assert_eq!(sensitive.search(&file), Vec::<usize>::new());
    let insensitive = SearchEngine::with_case_sensitivity("HELLO", false).unwrap();
    assert_eq!(insensitive.search(&file), vec![0]);
    assert!(sensitive.is_case_sensitive());
    assert!(!insensitive.is_case_sensitive());
}

#[test]
fn search_in_indices_keeps_order() {
    let file = DltFile::new("f1".to_string(), file_one());
    let engine = SearchEngine::new("ECU1").unwrap();
    assert_eq!(engine.search_in_indices(&file, &vec![1, 0]), vec![1, 0]);
    assert_eq!(engine.search_in_indices(&file, &vec![0]), vec![0]);
}

#[test]
fn search_in_messages_by_position() {
    let file = DltFile::new("f1".to_string(), file_one());
    let messages = file.get_messages(0, 2).unwrap();
    let engine = SearchEngine::new("boom").unwrap();
    assert_eq!(engine.search_in_messages(&messages), vec![1]);
}

#[test]
fn search_engine_recompiles_on_mode_switch() {
    let file = DltFile::new("f1".to_string(), file_one());
    let mut engine = SearchEngine::new("HELLO").unwrap();
    assert_eq!(engine.search(&file), Vec::<usize>::new());
    engine.set_case_sensitive(false).unwrap();
    assert_eq!(engine.search(&file), vec![0]);
    assert_eq!(engine.source().as_str(), "HELLO");
    engine.set_pattern("boom").unwrap();
    assert_eq!(engine.search(&file), vec![1]);
    assert!(SearchEngine::new("[").is_err());
}

#[test]
fn secondary_index_lookups() {
    let file = DltFile::new("f1".to_string(), file_one());
    let index = Index::new(&file).unwrap();
    assert_eq!(index.messages_by_app_id("APP1"), vec![0]);
    assert_eq!(index.messages_by_app_id("APP2"), vec![1]);
    assert_eq!(index.messages_by_app_id("NONE"), Vec::<usize>::new());
    assert_eq!(index.messages_by_context_id("CTX1"), vec![0, 1]);
    assert_eq!(index.messages_by_ecu_id("ECU1"), vec![0, 1]);
    assert_eq!(index.messages_by_log_level(LogLevel::Info), vec![0]);
    assert_eq!(index.messages_by_log_level(LogLevel::Error), vec![1]);
    assert_eq!(index.messages_by_log_level(LogLevel::Fatal), Vec::<usize>::new());
}

#[test]
fn secondary_index_key_sets() {
    let file = DltFile::new("f1".to_string(), file_one());
    let index = Index::new(&file).unwrap();
    let mut apps = index.app_ids();
    apps.sort();
    assert_eq!(apps, vec!["APP1".to_string(), "APP2".to_string()]);
    assert_eq!(index.context_ids(), vec!["CTX1".to_string()]);
    assert_eq!(index.ecu_ids(), vec!["ECU1".to_string()]);
}
