use dltui::codec::{
    payload_to_hex_string, DltExtendedHeader, DltMessage, DltStandardHeader, DltStorageHeader,
    LogLevel, MessageType, Timestamp,
};
use dltui::error::Error;

fn pad4(s: &str) -> [u8; 4] {
    let mut a = [0u8; 4];
    for (i, b) in s.bytes().enumerate().take(4) {
        a[i] = b;
    }
    a
}

fn make_record(
    ts_s: u32,
    ts_us: u32,
    ecu: &str,
    app: &str,
    ctx: &str,
    level: u8,
    text: &str,
) -> Vec<u8> {
    let mut v = Vec::new();
    v.extend_from_slice(b"DLT\x01");
    v.extend_from_slice(&ts_s.to_be_bytes());
    v.extend_from_slice(&ts_us.to_be_bytes());
    v.extend_from_slice(&pad4(ecu));
    let payload = text.as_bytes();
    let length: u16 = (30 + payload.len()) as u16;
    v.push(0x21);
    v.push(0);
    v.extend_from_slice(&length.to_le_bytes());
    v.push(level << 4);
    v.push(1);
    v.extend_from_slice(&pad4(app));
    v.extend_from_slice(&pad4(ctx));
    v.extend_from_slice(payload);
    v
}

#[test]
fn parse_whole_message() {
    let data = make_record(100, 0, "ECU1", "APP1", "CTX1", 4, "hello world");
    let m = DltMessage::parse(&data).unwrap();
    assert_eq!(m.storage_header.timestamp_seconds, 100);
    assert_eq!(m.storage_header.timestamp_microseconds, 0);
    assert_eq!(m.ecu_id(), "ECU1");
    assert_eq!(m.app_id(), Some("APP1".to_string()));
    assert_eq!(m.context_id(), Some("CTX1".to_string()));
    assert_eq!(m.log_level(), Some(LogLevel::Info));
    assert_eq!(m.message_type(), MessageType::Log);
    assert_eq!(m.standard_header.length as usize, data.len());
    assert_eq!(m.standard_header.version, 1);
    assert!(m.standard_header.use_extended_header);
    assert_eq!(m.payload_text.as_deref(), Some("hello world"));
    assert_eq!(m.payload_as_text(), "hello world");
}

#[test]
fn parse_without_extended_header() {
    // Storage header, then a standard header whose extended bit is clear.
    let mut v = Vec::new();
    v.extend_from_slice(b"DLT\x01");
    v.extend_from_slice(&7u32.to_be_bytes());
    v.extend_from_slice(&9u32.to_be_bytes());
    v.extend_from_slice(&pad4("E"));
    v.push(0x20); // version 1, no extended header
    v.push(3);
    v.extend_from_slice(&24u16.to_le_bytes());
    v.extend_from_slice(b"abcd");
    let m = DltMessage::parse(&v).unwrap();
    assert!(m.extended_header.is_none());
    assert_eq!(m.app_id(), None);
    assert_eq!(m.context_id(), None);
    assert_eq!(m.log_level(), None);
    assert_eq!(m.ecu_id(), "E");
    assert_eq!(m.standard_header.message_counter, 3);
    assert_eq!(m.payload, b"abcd".to_vec());
}

#[test]
fn parse_rejects_short_input() {
    assert!(matches!(DltMessage::parse(&[]), Err(Error::Format { index: 0 })));
    let data = make_record(1, 2, "E", "A", "C", 4, "x");
    assert!(DltMessage::parse(&data[..16]).is_err());
    assert!(DltMessage::parse(&data[..19]).is_err());
    // 20..29 bytes with the extended bit set cannot hold the extended header
    assert!(DltMessage::parse(&data[..25]).is_err());
}

#[test]
fn parse_tolerates_zero_length_field() {
    // A length field smaller than the headers leaves an empty payload.
    let mut data = make_record(101, 500, "ECU1", "APP2", "CTX1", 2, "boom");
    data[18] = 0;
    data[19] = 0;
    let m = DltMessage::parse(&data).unwrap();
    assert_eq!(m.standard_header.length, 0);
    assert!(m.payload.is_empty());
    assert_eq!(m.app_id(), Some("APP2".to_string()));
}

#[test]
fn parse_tolerates_trailing_slack() {
    let mut data = make_record(1, 2, "E", "A", "C", 4, "hi");
    data.extend_from_slice(&[0xFFu8; 7]);
    let m = DltMessage::parse(&data).unwrap();
    assert_eq!(m.payload_text.as_deref(), Some("hi"));
    assert_eq!(m.payload, b"hi".to_vec());
}

#[test]
fn storage_header_fields_and_validity() {
    let data = make_record(100, 0, "ECU1", "APP1", "CTX1", 4, "x");
    let h = DltStorageHeader::parse(&data).unwrap();
    assert!(h.is_valid());
    assert_eq!(h.ecu_id_str(), "ECU1");
    let bad = DltStorageHeader::parse(&[0u8; 16]).unwrap();
    assert!(!bad.is_valid());
}

#[test]
fn standard_header_bit_layout() {
    // header type 0b0110_0101: extended bit, type bits 010, version 011.
    let h = DltStandardHeader::parse(&[0b0110_0101, 42, 0x34, 0x12]).unwrap();
    assert!(h.use_extended_header);
    assert_eq!(h.message_counter, 42);
    assert_eq!(h.length, 0x1234);
    assert_eq!(h.message_type, MessageType::NetworkTrace);
    assert_eq!(h.version, 3);
}

#[test]
fn extended_header_level_bits() {
    let raw = [0x20u8, 1, b'A', b'P', b'P', 0, b'C', b'T', b'X', 0];
    let h = DltExtendedHeader::parse(&raw).unwrap();
    assert_eq!(h.log_level, LogLevel::Error);
    assert_eq!(h.app_id_str(), "APP");
    assert_eq!(h.context_id_str(), "CTX");
}

#[test]
fn log_level_and_message_type_decoding() {
    assert_eq!(LogLevel::from(1), LogLevel::Fatal);
    assert_eq!(LogLevel::from(2), LogLevel::Error);
    assert_eq!(LogLevel::from(3), LogLevel::Warning);
    assert_eq!(LogLevel::from(4), LogLevel::Info);
    assert_eq!(LogLevel::from(5), LogLevel::Debug);
    assert_eq!(LogLevel::from(6), LogLevel::Verbose);
    assert_eq!(LogLevel::from(7), LogLevel::Unknown(7));
    assert_eq!(MessageType::from(0), MessageType::Log);
    assert_eq!(MessageType::from(1), MessageType::TraceVariable);
    assert_eq!(MessageType::from(2), MessageType::NetworkTrace);
    assert_eq!(MessageType::from(3), MessageType::Control);
    assert_eq!(MessageType::from(4), MessageType::Unknown(4));
}

#[test]
fn timestamp_construction_and_fallback() {
    assert_eq!(Timestamp::from_parts(100, 0).micros_since_epoch, 100_000_000);
    assert_eq!(Timestamp::from_parts(101, 500).micros_since_epoch, 101_000_500);
    assert_eq!(Timestamp::from_parts(0, 999_999).micros_since_epoch, 999_999);
    // An out-of-range microsecond part is not representable: epoch.
    assert_eq!(Timestamp::from_parts(7, 1_000_000).micros_since_epoch, 0);
}

#[test]
fn payload_text_heuristic() {
    assert_eq!(
        DltMessage::parse_payload_text(b"line1\nline2\r\ttab"),
        Some("line1\nline2\r\ttab".to_string())
    );
    assert_eq!(DltMessage::parse_payload_text(&[0x00, 0x41]), None);
    assert_eq!(DltMessage::parse_payload_text(&[0x80]), None);
    assert_eq!(DltMessage::parse_payload_text(b""), Some(String::new()));
}

#[test]
fn hex_dump_single_row() {
    assert_eq!(
        payload_to_hex_string(&[0x00, 0x41]),
        "00000000  00 41                                             |.A|"
    );
}

#[test]
fn hex_dump_two_rows() {
    let payload: Vec<u8> = (0x41..0x41 + 20).collect();
    assert_eq!(
        payload_to_hex_string(&payload),
        "00000000  41 42 43 44 45 46 47 48  49 4a 4b 4c 4d 4e 4f 50  |ABCDEFGHIJKLMNOP|\n\
         00000010  51 52 53 54                                       |QRST|"
    );
}

#[test]
fn hex_dump_empty_payload() {
    assert_eq!(payload_to_hex_string(&[]), "");
}

#[test]
fn lossy_id_decoding_replaces_invalid_bytes() {
    // A non-UTF-8 byte in an identifier decodes to the replacement
    // character rather than being passed through.
    let raw = [0x41u8, 0xFF, 0, 0];
    let mut v = make_record(1, 2, "E", "A", "C", 4, "x");
    v[12..16].copy_from_slice(&raw);
    let m = DltMessage::parse(&v).unwrap();
    assert_eq!(m.ecu_id(), "A\u{FFFD}");
}
