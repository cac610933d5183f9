use dltui::app_state::{App, InputMode, ViewMode};
use dltui::dlt_file::DltFile;
use dltui::error::Error;
use dltui::filter::criteria::FilterCriteria;
use dltui::settings::Settings;
use dltui::text::usize_to_string;

fn pad4(s: &str) -> [u8; 4] {
    let mut a = [0u8; 4];
    for (i, b) in s.bytes().enumerate().take(4) {
        a[i] = b;
    }
    a
}

fn make_record(
    ts_s: u32,
    ts_us: u32,
    ecu: &str,
    app: &str,
    ctx: &str,
    level: u8,
    text: &str,
) -> Vec<u8> {
    let mut v = Vec::new();
    v.extend_from_slice(b"DLT\x01");
    v.extend_from_slice(&ts_s.to_be_bytes());
    v.extend_from_slice(&ts_us.to_be_bytes());
    v.extend_from_slice(&pad4(ecu));
    let payload = text.as_bytes();
    let length: u16 = (30 + payload.len()) as u16;
    v.push(0x21);
    v.push(0);
    v.extend_from_slice(&length.to_le_bytes());
    v.push(level << 4);
    v.push(1);
    v.extend_from_slice(&pad4(app));
    v.extend_from_slice(&pad4(ctx));
    v.extend_from_slice(payload);
    v
}

fn file_one() -> DltFile {
    let mut v = make_record(100, 0, "ECU1", "APP1", "CTX1", 4, "hello world");
    v.extend_from_slice(&make_record(101, 500, "ECU1", "APP2", "CTX1", 2, "boom"));
    DltFile::new("f1".to_string(), v)
}

fn loaded_app() -> App {
    let mut app = App::new();
    app.load_file(file_one()).unwrap();
    app
}

#[test]
fn fresh_session_is_empty() {
    let app = App::new();
    assert_eq!(app.file_count(), 0);
    assert!(app.filtered_positions().is_empty());
    assert_eq!(app.selected_index(), 0);
    assert_eq!(app.view_mode(), ViewMode::List);
    assert_eq!(app.input_mode(), InputMode::Normal);
    assert!(app.is_case_sensitive());
    assert!(!app.should_exit());
    assert!(app.selected_message().is_none());
}

#[test]
fn loading_first_file_selects_it() {
    let app = loaded_app();
    assert_eq!(app.file_count(), 1);
    assert_eq!(app.current_file_index(), 0);
    assert_eq!(app.filtered_positions(), &vec![0, 1]);
    assert_eq!(app.selected_index(), 0);
    let m = app.selected_message().unwrap();
    assert_eq!(m.payload_text.as_deref(), Some("hello world"));
}

#[test]
fn loading_rejects_unparseable_file() {
    // A lone record whose slice cannot hold its extended header.
    let mut data = make_record(1, 0, "E", "A", "C", 4, "x");
    data.truncate(25);
    data[18] = 25;
    data[19] = 0;
    let file = DltFile::new("bad".to_string(), data);
    assert_eq!(file.message_count(), 1);
    let mut app = App::new();
    let r = app.load_file(file);
    assert!(matches!(r, Err(Error::Format { .. })));
    assert_eq!(app.file_count(), 0);
}

#[test]
fn selection_moves_clamp() {
    let mut app = loaded_app();
    app.move_down();
    assert_eq!(app.selected_index(), 1);
    app.move_down();
    assert_eq!(app.selected_index(), 1);
    app.move_up();
    assert_eq!(app.selected_index(), 0);
    app.move_up();
    assert_eq!(app.selected_index(), 0);
    app.move_to_bottom();
    assert_eq!(app.selected_index(), 1);
    app.move_to_top();
    assert_eq!(app.selected_index(), 0);
}

#[test]
fn set_criteria_filters_positions() {
    let mut app = loaded_app();
    app.set_criteria(FilterCriteria::new().with_app_id("APP2".to_string()));
    assert_eq!(app.filtered_positions(), &vec![1]);
    assert_eq!(app.selected_index(), 0);
    let m = app.selected_message().unwrap();
    assert_eq!(m.payload_text.as_deref(), Some("boom"));
}

#[test]
fn search_selects_first_hit() {
    let mut app = loaded_app();
    app.search("hello").unwrap();
    assert_eq!(app.search_hits(), &vec![0]);
    assert_eq!(app.search_cursor(), 0);
    assert_eq!(app.selected_index(), 0);
    assert_eq!(app.status_message().as_str(), "Found 1 matches for 'hello'");
}

#[test]
fn search_without_hits_reports_it() {
    let mut app = loaded_app();
    app.search("nothing-here").unwrap();
    assert!(app.search_hits().is_empty());
    assert_eq!(app.status_message().as_str(), "No matches found for 'nothing-here'");
}

#[test]
fn search_with_bad_pattern_changes_nothing() {
    let mut app = loaded_app();
    app.search("hello").unwrap();
    let r = app.search("[");
    assert_eq!(r, Err(Error::RegexCompile));
    assert_eq!(app.search_hits(), &vec![0]);
    assert_eq!(app.search_source(), Some(&"hello".to_string()));
}

#[test]
fn next_and_prev_match_wrap() {
    let mut app = loaded_app();
    app.search("ECU1").unwrap();
    assert_eq!(app.search_hits(), &vec![0, 1]);
    assert_eq!(app.selected_index(), 0);
    app.next_search_result();
    assert_eq!(app.search_cursor(), 1);
    assert_eq!(app.selected_index(), 1);
    app.next_search_result();
    assert_eq!(app.search_cursor(), 0);
    assert_eq!(app.selected_index(), 0);
    app.prev_search_result();
    assert_eq!(app.search_cursor(), 1);
    app.prev_search_result();
    assert_eq!(app.search_cursor(), 0);
}

#[test]
fn filtered_search_wraps_to_itself() {
    let mut app = loaded_app();
    app.set_criteria(FilterCriteria::new().with_app_id("APP1".to_string()));
    assert_eq!(app.filtered_positions(), &vec![0]);
    app.search("world").unwrap();
    assert_eq!(app.search_hits(), &vec![0]);
    assert_eq!(app.selected_index(), 0);
    app.next_search_result();
    assert_eq!(app.search_cursor(), 0);
    assert_eq!(app.selected_index(), 0);
}

#[test]
fn search_hits_index_into_filter_result() {
    let mut app = loaded_app();
    app.set_criteria(FilterCriteria::new().with_app_id("APP2".to_string()));
    assert_eq!(app.filtered_positions(), &vec![1]);
    app.search("boom").unwrap();
    // The hit is hit position 0 of the filter result, which maps to
    // message position 1.
    assert_eq!(app.search_hits(), &vec![0]);
}

#[test]
fn toggle_case_sensitivity_reruns_search() {
    let mut app = loaded_app();
    app.search("HELLO").unwrap();
    assert!(app.search_hits().is_empty());
    app.toggle_case_sensitivity().unwrap();
    assert!(!app.is_case_sensitive());
    assert_eq!(app.search_hits(), &vec![0]);
    assert_eq!(app.status_message().as_str(), "Found 1 matches for 'HELLO'");
    app.toggle_case_sensitivity().unwrap();
    assert!(app.is_case_sensitive());
    assert!(app.search_hits().is_empty());
}

#[test]
fn toggle_case_sensitivity_without_search_sets_status() {
    let mut app = loaded_app();
    app.toggle_case_sensitivity().unwrap();
    assert!(!app.is_case_sensitive());
    assert_eq!(app.status_message().as_str(), "Search mode: case-insensitive");
    app.toggle_case_sensitivity().unwrap();
    assert_eq!(app.status_message().as_str(), "Search mode: case-sensitive");
}

#[test]
fn apply_text_filter_reports_count() {
    let mut app = loaded_app();
    app.apply_text_filter("hello").unwrap();
    assert_eq!(app.filtered_positions(), &vec![0]);
    assert_eq!(app.status_message().as_str(), "Showing 1 messages matching filter 'hello'");
    app.apply_text_filter("nothing").unwrap();
    assert!(app.filtered_positions().is_empty());
    assert_eq!(app.status_message().as_str(), "No messages match filter 'nothing'");
    assert_eq!(app.apply_text_filter("["), Err(Error::RegexCompile));
}

#[test]
fn search_prompt_accepts_keys() {
    let mut app = loaded_app();
    app.enter_search_mode();
    assert_eq!(app.input_mode(), InputMode::Search);
    assert_eq!(app.status_message().as_str(), "Search: ");
    app.handle_search_input('b');
    app.handle_search_input('o');
    app.handle_search_input('x');
    app.handle_search_input('\u{8}');
    app.handle_search_input('o');
    app.handle_search_input('m');
    assert_eq!(app.command_input().as_str(), "boom");
    app.handle_search_input('\n');
    assert_eq!(app.input_mode(), InputMode::Normal);
    assert_eq!(app.command_input().as_str(), "");
    assert_eq!(app.search_hits(), &vec![1]);
}

#[test]
fn search_prompt_escape_abandons() {
    let mut app = loaded_app();
    app.enter_search_mode();
    app.handle_search_input('x');
    app.handle_search_input('\u{1b}');
    assert_eq!(app.input_mode(), InputMode::Normal);
    assert!(app.search_hits().is_empty());
    assert_eq!(app.command_input().as_str(), "");
}

#[test]
fn filter_prompt_applies_text_filter() {
    let mut app = loaded_app();
    app.enter_filter_mode();
    assert_eq!(app.status_message().as_str(), "Filter: ");
    app.handle_filter_input('b');
    app.handle_filter_input('o');
    app.handle_filter_input('o');
    app.handle_filter_input('m');
    app.handle_filter_input('\n');
    assert_eq!(app.input_mode(), InputMode::Normal);
    assert_eq!(app.filtered_positions(), &vec![1]);
}

#[test]
fn view_mode_toggles() {
    let mut app = App::new();
    assert_eq!(app.view_mode(), ViewMode::List);
    app.toggle_view_mode();
    assert_eq!(app.view_mode(), ViewMode::Detail);
    app.toggle_view_mode();
    assert_eq!(app.view_mode(), ViewMode::List);
    app.show_help();
    assert_eq!(app.view_mode(), ViewMode::Help);
    app.toggle_view_mode();
    assert_eq!(app.view_mode(), ViewMode::List);
    app.exit();
    assert!(app.should_exit());
}

#[test]
fn file_navigation_wraps() {
    let mut app = loaded_app();
    // A second file with only the boom record.
    let second = DltFile::new(
        "f2".to_string(),
        make_record(7, 0, "ECU2", "APP9", "CTX9", 2, "other"),
    );
    app.load_file(second).unwrap();
    assert_eq!(app.file_count(), 2);
    assert_eq!(app.current_file_index(), 0);
    app.next_file();
    assert_eq!(app.current_file_index(), 1);
    assert_eq!(app.filtered_positions(), &vec![0]);
    app.next_file();
    assert_eq!(app.current_file_index(), 0);
    assert_eq!(app.filtered_positions(), &vec![0, 1]);
    app.prev_file();
    assert_eq!(app.current_file_index(), 1);
    app.prev_file();
    assert_eq!(app.current_file_index(), 0);
}

#[test]
fn settings_defaults_and_recent_files() {
    let mut s = Settings::default();
    assert_eq!(s.tick_rate, 250);
    assert_eq!(s.max_recent_files, 10);
    assert_eq!(s.theme, "default");
    s.add_recent_file("a.dlt".to_string());
    s.add_recent_file("b.dlt".to_string());
    s.add_recent_file("a.dlt".to_string());
    assert_eq!(
        s.recent_files,
        vec!["a.dlt".to_string(), "b.dlt".to_string()]
    );
    s.max_recent_files = 2;
    s.add_recent_file("c.dlt".to_string());
    assert_eq!(
        s.recent_files,
        vec!["c.dlt".to_string(), "a.dlt".to_string()]
    );
}

#[test]
fn decimal_rendering() {
    assert_eq!(usize_to_string(0), "0");
    assert_eq!(usize_to_string(42), "42");
    assert_eq!(usize_to_string(90210), "90210");
}

#[test]
fn error_values_carry_positions() {
    assert_eq!(Error::NotFound { index: 7 }, Error::NotFound { index: 7 });
    assert_ne!(Error::NotFound { index: 7 }, Error::Format { index: 7 });
    let io = Error::Io("permission denied".to_string());
    assert!(matches!(io, Error::Io(_)));
}
