//! Wire codec for DLT records.
//!
//! A record is a 16-byte storage header, a 4-byte standard header, an
//! optional 10-byte extended header, and a payload.  The 32-bit fields of
//! the storage header are big-endian; the length field of the standard
//! header is little-endian.  Parsing is specified byte-exactly by the
//! `spec` functions of this module and the executable parsers are proved
//! against them.

use vstd::prelude::*;

use crate::error::Error;
use crate::text::{ascii_chars, bytes_to_string_lossy, id_field_to_string, push_char, spec_id_str};

verus! {

/// Log severity carried in the extended header.
#[derive(Debug, Clone, Copy, PartialEq, Eq, Structural, Hash, Default)]
pub enum LogLevel {
    #[default]
    Fatal,
    Error,
    Warning,
    Info,
    Debug,
    Verbose,
    Unknown(u8),
}

/// What a raw 3-bit level value decodes to.
pub open spec fn spec_log_level(value: u8) -> LogLevel {
    if value == 1 {
        LogLevel::Fatal
    } else if value == 2 {
        LogLevel::Error
    } else if value == 3 {
        LogLevel::Warning
    } else if value == 4 {
        LogLevel::Info
    } else if value == 5 {
        LogLevel::Debug
    } else if value == 6 {
        LogLevel::Verbose
    } else {
        LogLevel::Unknown(value)
    }
}

impl From<u8> for LogLevel {
    fn from(value: u8) -> (r: Self)
        ensures
            r == spec_log_level(value),
    {
        match value {
            1 => LogLevel::Fatal,
            2 => LogLevel::Error,
            3 => LogLevel::Warning,
            4 => LogLevel::Info,
            5 => LogLevel::Debug,
            6 => LogLevel::Verbose,
            v => LogLevel::Unknown(v),
        }
    }
}

impl vstd::std_specs::convert::FromSpecImpl<u8> for LogLevel {
    open spec fn obeys_from_spec() -> bool {
        true
    }

    open spec fn from_spec(value: u8) -> Self {
        spec_log_level(value)
    }
}

/// Message class carried in the standard header's type bits.
#[derive(Debug, Clone, Copy, PartialEq, Eq, Structural, Default)]
pub enum MessageType {
    #[default]
    Log,
    TraceVariable,
    NetworkTrace,
    Control,
    Unknown(u8),
}

/// What a raw 3-bit type value decodes to.
pub open spec fn spec_message_type(value: u8) -> MessageType {
    if value == 0 {
        MessageType::Log
    } else if value == 1 {
        MessageType::TraceVariable
    } else if value == 2 {
        MessageType::NetworkTrace
    } else if value == 3 {
        MessageType::Control
    } else {
        MessageType::Unknown(value)
    }
}

impl From<u8> for MessageType {
    fn from(value: u8) -> (r: Self)
        ensures
            r == spec_message_type(value),
    {
        match value {
            0 => MessageType::Log,
            1 => MessageType::TraceVariable,
            2 => MessageType::NetworkTrace,
            3 => MessageType::Control,
            v => MessageType::Unknown(v),
        }
    }
}

impl vstd::std_specs::convert::FromSpecImpl<u8> for MessageType {
    open spec fn obeys_from_spec() -> bool {
        true
    }

    open spec fn from_spec(value: u8) -> Self {
        spec_message_type(value)
    }
}

/// A UTC instant with microsecond resolution, counted from the Unix epoch.
#[derive(Debug, Clone, Copy, PartialEq, Eq, Structural)]
pub struct Timestamp {
    pub micros_since_epoch: u64,
}

/// The instant a storage header's second/microsecond pair denotes.  A pair
/// whose microsecond part is out of range is not representable and falls
/// back to the epoch; parsing never fails over it.
pub open spec fn spec_timestamp(seconds: u32, microseconds: u32) -> u64 {
    if microseconds < 1_000_000 {
        (seconds * 1_000_000 + microseconds) as u64
    } else {
        0
    }
}

impl Timestamp {
    /// Combines a second/microsecond pair into an instant.
    pub fn from_parts(seconds: u32, microseconds: u32) -> (r: Timestamp)
        ensures
            r.micros_since_epoch == spec_timestamp(seconds, microseconds),
    {
        if microseconds < 1_000_000 {
            Timestamp { micros_since_epoch: seconds as u64 * 1_000_000 + microseconds as u64 }
        } else {
            Timestamp { micros_since_epoch: 0 }
        }
    }
}

/// The big-endian 32-bit value at position `pos`.
pub open spec fn spec_u32_be(b: Seq<u8>, pos: int) -> u32
    recommends
        0 <= pos,
        pos + 4 <= b.len(),
{
    (b[pos] * 0x1000000 + b[pos + 1] * 0x10000 + b[pos + 2] * 0x100 + b[pos + 3]) as u32
}

/// The little-endian 16-bit value at position `pos`.
pub open spec fn spec_u16_le(b: Seq<u8>, pos: int) -> u16
    recommends
        0 <= pos,
        pos + 2 <= b.len(),
{
    (b[pos] + b[pos + 1] * 0x100) as u16
}

/// Reads a big-endian 32-bit value.
pub fn read_u32_be(data: &[u8], pos: usize) -> (r: u32)
    requires
        pos + 4 <= data@.len(),
    ensures
        r == spec_u32_be(data@, pos as int),
{
    let b0 = data[pos] as u32;
    let b1 = data[pos + 1] as u32;
    let b2 = data[pos + 2] as u32;
    let b3 = data[pos + 3] as u32;
    b0 * 0x1000000 + b1 * 0x10000 + b2 * 0x100 + b3
}

/// Reads a little-endian 16-bit value.
pub fn read_u16_le(data: &[u8], pos: usize) -> (r: u16)
    requires
        pos + 2 <= data@.len(),
    ensures
        r == spec_u16_le(data@, pos as int),
{
    let b0 = data[pos] as u16;
    let b1 = data[pos + 1] as u16;
    b0 + b1 * 0x100
}

/// Whether the four bytes at `pos` are the storage pattern `'D','L','T',1`.
pub open spec fn spec_magic_at(b: Seq<u8>, pos: int) -> bool {
    &&& 0 <= pos
    &&& pos + 4 <= b.len()
    &&& b[pos] == 'D' as u8
    &&& b[pos + 1] == 'L' as u8
    &&& b[pos + 2] == 'T' as u8
    &&& b[pos + 3] == 1u8
}

/// DLT storage header: pattern, coarse timestamp, ECU identifier.
#[derive(Debug, Clone)]
pub struct DltStorageHeader {
    /// The `"DLT"` + 0x01 pattern.
    pub pattern: [u8; 4],
    /// Seconds since 1970-01-01 00:00:00 UTC (big-endian on the wire).
    pub timestamp_seconds: u32,
    /// Microseconds within that second (big-endian on the wire).
    pub timestamp_microseconds: u32,
    /// ECU identifier, NUL-padded.
    pub ecu_id: [u8; 4],
}

/// Field-exact relation between a parsed storage header and the first
/// 16 bytes of its record.
pub open spec fn storage_header_matches(h: DltStorageHeader, b: Seq<u8>) -> bool {
    &&& h.pattern@ == b.subrange(0, 4)
    &&& h.timestamp_seconds == spec_u32_be(b, 4)
    &&& h.timestamp_microseconds == spec_u32_be(b, 8)
    &&& h.ecu_id@ == b.subrange(12, 16)
}

impl DltStorageHeader {
    /// Parses the 16-byte storage header at the front of `data`.
    pub fn parse(data: &[u8]) -> (r: Result<DltStorageHeader, Error>)
        ensures
            r is Ok <==> data@.len() >= 16,
            r matches Ok(h) ==> storage_header_matches(h, data@),
            r matches Err(e) ==> e == (Error::Format { index: 0usize }),
    {
        if data.len() < 16 {
            return Err(Error::Format { index: 0 });
        }
        let pattern = [data[0], data[1], data[2], data[3]];
        let timestamp_seconds = read_u32_be(data, 4);
        let timestamp_microseconds = read_u32_be(data, 8);
        let ecu_id = [data[12], data[13], data[14], data[15]];
        proof {
            assert(pattern@ =~= data@.subrange(0, 4));
            assert(ecu_id@ =~= data@.subrange(12, 16));
        }
        Ok(DltStorageHeader { pattern, timestamp_seconds, timestamp_microseconds, ecu_id })
    }

    /// The instant of this record, per `spec_timestamp`.
    pub fn timestamp(&self) -> (r: Timestamp)
        ensures
            r.micros_since_epoch == spec_timestamp(
                self.timestamp_seconds,
                self.timestamp_microseconds,
            ),
    {
        Timestamp::from_parts(self.timestamp_seconds, self.timestamp_microseconds)
    }

    /// The ECU identifier as text, trailing NULs removed.
    pub fn ecu_id_str(&self) -> (r: String)
        ensures
            r@ == spec_id_str(self.ecu_id@),
    {
        id_field_to_string(&self.ecu_id)
    }

    /// Whether the pattern field holds the storage magic.
    pub fn is_valid(&self) -> (r: bool)
        ensures
            r == spec_magic_at(self.pattern@, 0),
    {
        self.pattern[0] == 'D' as u8 && self.pattern[1] == 'L' as u8 && self.pattern[2] == 'T' as u8
            && self.pattern[3] == 0x01
    }
}

/// DLT standard header: flags, counter, total record length.
#[derive(Debug, Clone)]
pub struct DltStandardHeader {
    /// Whether an extended header follows.
    pub use_extended_header: bool,
    /// Wrapping message counter.
    pub message_counter: u8,
    /// Overall length of the record in bytes, all headers included.
    pub length: u16,
    /// Message class from the header-type bits.
    pub message_type: MessageType,
    /// DLT protocol version from the header-type bits.
    pub version: u8,
}

/// Field-exact relation between a parsed standard header and its 4 bytes.
pub open spec fn standard_header_matches(h: DltStandardHeader, b: Seq<u8>) -> bool {
    &&& h.use_extended_header == ((b[0] & 0x01) != 0)
    &&& h.message_counter == b[1]
    &&& h.length == spec_u16_le(b, 2)
    &&& h.message_type == spec_message_type((b[0] >> 1) & 0x07)
    &&& h.version == ((b[0] >> 5) & 0x07)
}

impl DltStandardHeader {
    /// Parses the 4-byte standard header at the front of `data`.
    pub fn parse(data: &[u8]) -> (r: Result<DltStandardHeader, Error>)
        ensures
            r is Ok <==> data@.len() >= 4,
            r matches Ok(h) ==> standard_header_matches(h, data@),
            r matches Err(e) ==> e == (Error::Format { index: 0usize }),
    {
        if data.len() < 4 {
            return Err(Error::Format { index: 0 });
        }
        let header_type = data[0];
        let message_counter = data[1];
        let length = read_u16_le(data, 2);
        let use_extended_header = (header_type & 0x01) != 0;
        let version = (header_type >> 5) & 0x07;
        let message_type_value = (header_type >> 1) & 0x07;
        Ok(DltStandardHeader {
            use_extended_header,
            message_counter,
            length,
            message_type: MessageType::from(message_type_value),
            version,
        })
    }
}

/// DLT extended header: severity, argument count, application and context
/// identifiers.
#[derive(Debug, Clone)]
pub struct DltExtendedHeader {
    /// Raw message-info byte; its bits 4..7 encode the log level.
    pub message_info: u8,
    /// Number of payload arguments.
    pub argument_count: u8,
    /// Application identifier, NUL-padded.
    pub app_id: [u8; 4],
    /// Context identifier, NUL-padded.
    pub context_id: [u8; 4],
    /// Log level decoded from `message_info`.
    pub log_level: LogLevel,
}

/// Field-exact relation between a parsed extended header and its 10 bytes.
pub open spec fn extended_header_matches(h: DltExtendedHeader, b: Seq<u8>) -> bool {
    &&& h.message_info == b[0]
    &&& h.argument_count == b[1]
    &&& h.app_id@ == b.subrange(2, 6)
    &&& h.context_id@ == b.subrange(6, 10)
    &&& h.log_level == spec_log_level((b[0] >> 4) & 0x07)
}

impl DltExtendedHeader {
    /// Parses the 10-byte extended header at the front of `data`.
    pub fn parse(data: &[u8]) -> (r: Result<DltExtendedHeader, Error>)
        ensures
            r is Ok <==> data@.len() >= 10,
            r matches Ok(h) ==> extended_header_matches(h, data@),
            r matches Err(e) ==> e == (Error::Format { index: 0usize }),
    {
        if data.len() < 10 {
            return Err(Error::Format { index: 0 });
        }
        let message_info = data[0];
        let argument_count = data[1];
        let app_id = [data[2], data[3], data[4], data[5]];
        let context_id = [data[6], data[7], data[8], data[9]];
        let log_level_value = (message_info >> 4) & 0x07;
        proof {
            assert(app_id@ =~= data@.subrange(2, 6));
            assert(context_id@ =~= data@.subrange(6, 10));
        }
        Ok(DltExtendedHeader {
            message_info,
            argument_count,
            app_id,
            context_id,
            log_level: LogLevel::from(log_level_value),
        })
    }

    /// The application identifier as text, trailing NULs removed.
    pub fn app_id_str(&self) -> (r: String)
        ensures
            r@ == spec_id_str(self.app_id@),
    {
        id_field_to_string(&self.app_id)
    }

    /// The context identifier as text, trailing NULs removed.
    pub fn context_id_str(&self) -> (r: String)
        ensures
            r@ == spec_id_str(self.context_id@),
    {
        id_field_to_string(&self.context_id)
    }
}

/// Whether the header-type byte announces an extended header.
pub open spec fn spec_use_ext(b: Seq<u8>) -> bool
    recommends
        b.len() >= 17,
{
    (b[16] & 0x01) != 0
}

/// The headers' total size: 20 bytes, or 30 with an extended header.
pub open spec fn spec_headers_size(b: Seq<u8>) -> int
    recommends
        b.len() >= 17,
{
    if spec_use_ext(b) {
        30
    } else {
        20
    }
}

/// The record's declared total length (little-endian at offset 18).
pub open spec fn spec_length_field(b: Seq<u8>) -> u16
    recommends
        b.len() >= 20,
{
    spec_u16_le(b, 18)
}

/// How many payload bytes the declared length leaves after the headers.
/// A length smaller than the headers leaves none.
pub open spec fn spec_payload_size(b: Seq<u8>) -> int
    recommends
        b.len() >= 20,
{
    if spec_length_field(b) >= spec_headers_size(b) {
        spec_length_field(b) - spec_headers_size(b)
    } else {
        0
    }
}

/// Exactly when a byte slice parses as one record: room for the headers
/// it announces, and room for the payload its length field claims.
pub open spec fn spec_parse_ok(b: Seq<u8>) -> bool {
    &&& b.len() >= 20
    &&& spec_use_ext(b) ==> b.len() >= 30
    &&& spec_headers_size(b) + spec_payload_size(b) <= b.len()
}

/// Printable ASCII.
pub open spec fn spec_printable(b: u8) -> bool {
    0x20 <= b < 0x7F
}

/// Bytes the payload-as-text heuristic accepts: printable ASCII plus tab,
/// newline and carriage return.
pub open spec fn spec_text_byte(b: u8) -> bool {
    spec_printable(b) || b == 0x09 || b == 0x0A || b == 0x0D
}

/// Whether every payload byte passes the text heuristic.
pub open spec fn spec_all_text(p: Seq<u8>) -> bool {
    forall|i: int| 0 <= i < p.len() ==> spec_text_byte(p[i])
}

/// Relation between the optional text projection and the payload bytes:
/// present, character for character, exactly when every byte is text.
pub open spec fn payload_text_matches(t: Option<String>, p: Seq<u8>) -> bool {
    match t {
        Some(s) => spec_all_text(p) && s@ == ascii_chars(p),
        None => !spec_all_text(p),
    }
}

/// A complete parsed DLT record.
#[derive(Debug, Clone)]
pub struct DltMessage {
    /// Storage header.
    pub storage_header: DltStorageHeader,
    /// Standard header.
    pub standard_header: DltStandardHeader,
    /// Extended header, present when the standard header announces it.
    pub extended_header: Option<DltExtendedHeader>,
    /// Raw payload bytes.
    pub payload: Vec<u8>,
    /// Payload decoded as text, when the heuristic accepts it.
    pub payload_text: Option<String>,
}

/// Field-exact relation between a parsed message and the bytes it came
/// from.
pub open spec fn message_matches(m: DltMessage, b: Seq<u8>) -> bool {
    &&& storage_header_matches(m.storage_header, b)
    &&& standard_header_matches(m.standard_header, b.subrange(16, 20))
    &&& (m.extended_header is Some) == spec_use_ext(b)
    &&& (m.extended_header matches Some(h) ==> extended_header_matches(h, b.subrange(20, 30)))
    &&& m.payload@ == b.subrange(spec_headers_size(b), spec_headers_size(b) + spec_payload_size(b))
    &&& payload_text_matches(m.payload_text, m.payload@)
}

/// The application identifier a message exposes, if any.
pub open spec fn spec_msg_app_id(m: DltMessage) -> Option<Seq<char>> {
    match m.extended_header {
        Some(h) => Some(spec_id_str(h.app_id@)),
        None => None,
    }
}

/// The context identifier a message exposes, if any.
pub open spec fn spec_msg_context_id(m: DltMessage) -> Option<Seq<char>> {
    match m.extended_header {
        Some(h) => Some(spec_id_str(h.context_id@)),
        None => None,
    }
}

/// The log level a message exposes, if any.
pub open spec fn spec_msg_log_level(m: DltMessage) -> Option<LogLevel> {
    match m.extended_header {
        Some(h) => Some(h.log_level),
        None => None,
    }
}

/// The ECU identifier of a message.
pub open spec fn spec_msg_ecu_id(m: DltMessage) -> Seq<char> {
    spec_id_str(m.storage_header.ecu_id@)
}

/// The instant of a message, in microseconds since the epoch.
pub open spec fn spec_msg_timestamp(m: DltMessage) -> u64 {
    spec_timestamp(m.storage_header.timestamp_seconds, m.storage_header.timestamp_microseconds)
}

/// The text projection of a message's payload, if any.
pub open spec fn spec_msg_text(m: DltMessage) -> Option<Seq<char>> {
    match m.payload_text {
        Some(s) => Some(s@),
        None => None,
    }
}

impl DltMessage {
    /// Parses one record from a byte slice.  Succeeds exactly on
    /// `spec_parse_ok` inputs; trailing bytes beyond the declared length
    /// are tolerated and ignored.
    pub fn parse(data: &[u8]) -> (r: Result<DltMessage, Error>)
        ensures
            r is Ok <==> spec_parse_ok(data@),
            r matches Ok(m) ==> message_matches(m, data@),
            r matches Err(e) ==> e == (Error::Format { index: 0usize }),
    {
        let storage_header = match DltStorageHeader::parse(data) {
            Ok(h) => h,
            Err(e) => {
                return Err(e);
            },
        };
        if data.len() < 20 {
            return Err(Error::Format { index: 0 });
        }
        let standard_slice = vstd::slice::slice_subrange(data, 16, 20);
        let standard_header = match DltStandardHeader::parse(standard_slice) {
            Ok(h) => h,
            Err(e) => {
                return Err(e);
            },
        };
        let extended_header = if standard_header.use_extended_header {
            if data.len() < 30 {
                return Err(Error::Format { index: 0 });
            }
            let extended_slice = vstd::slice::slice_subrange(data, 20, 30);
            match DltExtendedHeader::parse(extended_slice) {
                Ok(h) => Some(h),
                Err(e) => {
                    return Err(e);
                },
            }
        } else {
            None
        };
        let headers_size: usize = if standard_header.use_extended_header {
            30
        } else {
            20
        };
        let length = standard_header.length as usize;
        let payload_size: usize = if length >= headers_size {
            length - headers_size
        } else {
            0
        };
        if payload_size > data.len() - headers_size {
            return Err(Error::Format { index: 0 });
        }
        let payload_slice = vstd::slice::slice_subrange(data, headers_size, headers_size
            + payload_size);
        let payload = vstd::slice::slice_to_vec(payload_slice);
        let payload_text = Self::parse_payload_text(payload.as_slice());
        Ok(DltMessage { storage_header, standard_header, extended_header, payload, payload_text })
    }

    /// Applies the text heuristic to a payload: decoded as a string when
    /// every byte is printable ASCII or common whitespace, absent
    /// otherwise.
    pub fn parse_payload_text(payload: &[u8]) -> (r: Option<String>)
        ensures
            payload_text_matches(r, payload@),
    {
        let mut i: usize = 0;
        while i < payload.len()
            invariant
                i <= payload@.len(),
                forall|j: int| 0 <= j < i ==> spec_text_byte(payload@[j]),
            decreases payload@.len() - i,
        {
            let b = payload[i];
            if !(b >= 32 && b < 127 || b == 0x0A || b == 0x0D || b == 0x09) {
                return None;
            }
            i = i + 1;
        }
        assert(forall|j: int| 0 <= j < payload@.len() ==> payload@[j] < 0x80);
        Some(bytes_to_string_lossy(payload))
    }

    /// The instant of this record.
    pub fn timestamp(&self) -> (r: Timestamp)
        ensures
            r.micros_since_epoch == spec_msg_timestamp(*self),
    {
        self.storage_header.timestamp()
    }

    /// The ECU identifier as text.
    pub fn ecu_id(&self) -> (r: String)
        ensures
            r@ == spec_msg_ecu_id(*self),
    {
        self.storage_header.ecu_id_str()
    }

    /// The application identifier as text, when an extended header is
    /// present.
    pub fn app_id(&self) -> (r: Option<String>)
        ensures
            opt_chars(r) == spec_msg_app_id(*self),
    {
        match &self.extended_header {
            Some(h) => Some(h.app_id_str()),
            None => None,
        }
    }

    /// The context identifier as text, when an extended header is present.
    pub fn context_id(&self) -> (r: Option<String>)
        ensures
            opt_chars(r) == spec_msg_context_id(*self),
    {
        match &self.extended_header {
            Some(h) => Some(h.context_id_str()),
            None => None,
        }
    }

    /// The log level, when an extended header is present.
    pub fn log_level(&self) -> (r: Option<LogLevel>)
        ensures
            r == spec_msg_log_level(*self),
    {
        match &self.extended_header {
            Some(h) => Some(h.log_level),
            None => None,
        }
    }

    /// The message class of the standard header.
    pub fn message_type(&self) -> (r: MessageType)
        ensures
            r == self.standard_header.message_type,
    {
        self.standard_header.message_type
    }

    /// The payload as text: its text projection when present, the
    /// canonical hex dump otherwise.
    pub fn payload_as_text(&self) -> (r: String)
        ensures
            r@ == spec_payload_rendering(*self),
    {
        match &self.payload_text {
            Some(s) => s.clone(),
            None => payload_to_hex_string(self.payload.as_slice()),
        }
    }
}

/// The view of an optional string.
pub open spec fn opt_chars(o: Option<String>) -> Option<Seq<char>> {
    match o {
        Some(s) => Some(s@),
        None => None,
    }
}

/// What `payload_as_text` renders: the text projection, or the hex dump.
pub open spec fn spec_payload_rendering(m: DltMessage) -> Seq<char> {
    match m.payload_text {
        Some(s) => s@,
        None => spec_hex_dump(m.payload@),
    }
}

/// The mathematical model of a parsed record: every field the engines
/// read, as a function of the record's bytes.
pub struct MsgModel {
    /// ECU identifier text.
    pub ecu_id: Seq<char>,
    /// Application identifier text, when the extended header is present.
    pub app_id: Option<Seq<char>>,
    /// Context identifier text, when the extended header is present.
    pub context_id: Option<Seq<char>>,
    /// Log level, when the extended header is present.
    pub log_level: Option<LogLevel>,
    /// Message class.
    pub message_type: MessageType,
    /// Instant in microseconds since the epoch.
    pub timestamp: u64,
    /// Declared total record length.
    pub length: u16,
    /// Payload bytes.
    pub payload: Seq<u8>,
    /// Payload text projection, when the heuristic accepts the payload.
    pub text: Option<Seq<char>>,
}

/// The model of the record held in a byte slice.
pub open spec fn spec_msg(b: Seq<u8>) -> MsgModel
    recommends
        spec_parse_ok(b),
{
    MsgModel {
        ecu_id: spec_id_str(b.subrange(12, 16)),
        app_id: if spec_use_ext(b) {
            Some(spec_id_str(b.subrange(22, 26)))
        } else {
            None
        },
        context_id: if spec_use_ext(b) {
            Some(spec_id_str(b.subrange(26, 30)))
        } else {
            None
        },
        log_level: if spec_use_ext(b) {
            Some(spec_log_level((b[20] >> 4) & 0x07))
        } else {
            None
        },
        message_type: spec_message_type((b[16] >> 1) & 0x07),
        timestamp: spec_timestamp(spec_u32_be(b, 4), spec_u32_be(b, 8)),
        length: spec_length_field(b),
        payload: b.subrange(spec_headers_size(b), spec_headers_size(b) + spec_payload_size(b)),
        text: if spec_all_text(
            b.subrange(spec_headers_size(b), spec_headers_size(b) + spec_payload_size(b)),
        ) {
            Some(
                ascii_chars(
                    b.subrange(spec_headers_size(b), spec_headers_size(b) + spec_payload_size(b)),
                ),
            )
        } else {
            None
        },
    }
}

/// The model a parsed message itself presents through its accessors.
pub open spec fn spec_model_of(m: DltMessage) -> MsgModel {
    MsgModel {
        ecu_id: spec_msg_ecu_id(m),
        app_id: spec_msg_app_id(m),
        context_id: spec_msg_context_id(m),
        log_level: spec_msg_log_level(m),
        message_type: m.standard_header.message_type,
        timestamp: spec_msg_timestamp(m),
        length: m.standard_header.length,
        payload: m.payload@,
        text: spec_msg_text(m),
    }
}

/// A message parsed from some bytes agrees, accessor by accessor, with
/// the model of those bytes.
pub proof fn lemma_message_model(m: DltMessage, b: Seq<u8>)
    requires
        spec_parse_ok(b),
        message_matches(m, b),
    ensures
        spec_model_of(m) == spec_msg(b),
        spec_msg_ecu_id(m) == spec_msg(b).ecu_id,
        spec_msg_app_id(m) == spec_msg(b).app_id,
        spec_msg_context_id(m) == spec_msg(b).context_id,
        spec_msg_log_level(m) == spec_msg(b).log_level,
        m.standard_header.message_type == spec_msg(b).message_type,
        spec_msg_timestamp(m) == spec_msg(b).timestamp,
        m.standard_header.length == spec_msg(b).length,
        m.payload@ == spec_msg(b).payload,
        spec_msg_text(m) == spec_msg(b).text,
{
    assert(b.subrange(0, 16).subrange(12, 16) =~= b.subrange(12, 16));
    assert(m.storage_header.ecu_id@ =~= b.subrange(12, 16)) by {
        assert(m.storage_header.ecu_id@ == b.subrange(12, 16));
    }
    assert(b.subrange(16, 20)[0] == b[16]);
    assert(b.subrange(16, 20)[2] == b[18]);
    assert(b.subrange(16, 20)[3] == b[19]);
    if spec_use_ext(b) {
        let ext = b.subrange(20, 30);
        assert(ext.subrange(2, 6) =~= b.subrange(22, 26));
        assert(ext.subrange(6, 10) =~= b.subrange(26, 30));
        assert(ext[0] == b[20]);
    }
    match m.payload_text {
        Some(s) => {
            assert(spec_all_text(m.payload@));
        },
        None => {},
    }
}

/// The lower-case hex digit for a value below 16.
pub open spec fn spec_hex_digit(n: u8) -> char
    recommends
        n < 16,
{
    if n < 10 {
        (('0' as u8) + n) as char
    } else {
        (('a' as u8) + (n - 10)) as char
    }
}

/// The hex digits of a number, most significant first, no padding.
pub open spec fn spec_hex_digits(n: nat) -> Seq<char>
    decreases n,
{
    if n < 16 {
        seq![spec_hex_digit(n as u8)]
    } else {
        spec_hex_digits(n / 16).push(spec_hex_digit((n % 16) as u8))
    }
}

/// `n` copies of one character.
pub open spec fn spec_repeat_char(c: char, n: int) -> Seq<char>
    decreases n,
{
    if n <= 0 {
        Seq::empty()
    } else {
        spec_repeat_char(c, n - 1).push(c)
    }
}

/// A row offset in hex, zero-padded to at least eight digits.
pub open spec fn spec_offset_hex(n: nat) -> Seq<char> {
    let d = spec_hex_digits(n);
    if d.len() >= 8 {
        d
    } else {
        spec_repeat_char('0', 8 - d.len()) + d
    }
}

/// The hex cells of one row from position `j` on: each byte as two digits
/// and a space, with one extra space before the ninth byte.
pub open spec fn spec_hex_cells(chunk: Seq<u8>, j: int) -> Seq<char>
    decreases chunk.len() - j,
{
    if j < 0 || j >= chunk.len() {
        Seq::empty()
    } else {
        let cell = seq![spec_hex_digit(chunk[j] / 16), spec_hex_digit(chunk[j] % 16), ' '];
        let lead = if j == 8 {
            seq![' '] + cell
        } else {
            cell
        };
        lead + spec_hex_cells(chunk, j + 1)
    }
}

/// The blank filler of an incomplete row: three spaces per missing byte,
/// and the group gap when the row never reached its ninth byte.
pub open spec fn spec_row_padding(len: int) -> Seq<char> {
    spec_repeat_char(' ', 3 * (16 - len)) + if len < 8 {
        seq![' ']
    } else {
        Seq::empty()
    }
}

/// The ASCII gutter of one row: printable bytes as themselves, dots
/// otherwise.
pub open spec fn spec_gutter(chunk: Seq<u8>) -> Seq<char> {
    chunk.map_values(
        |b: u8|
            if spec_printable(b) {
                b as char
            } else {
                '.'
            },
    )
}

/// One hex-dump row for a chunk of at most 16 bytes.
pub open spec fn spec_hex_row(chunk: Seq<u8>, row: int) -> Seq<char>
    recommends
        row >= 0,
{
    spec_offset_hex((16 * row) as nat) + seq![' ', ' '] + spec_hex_cells(chunk, 0)
        + spec_row_padding(chunk.len() as int) + seq![' ', '|'] + spec_gutter(chunk) + seq!['|']
}

/// The rows of a hex dump from row `row` on, newline-separated, with no
/// newline before the first row of the dump.
pub open spec fn spec_hex_rows(p: Seq<u8>, row: int) -> Seq<char>
    decreases p.len(),
{
    if p.len() == 0 {
        Seq::empty()
    } else {
        let n = if p.len() >= 16 {
            16int
        } else {
            p.len() as int
        };
        let head = if row > 0 {
            seq!['\n'] + spec_hex_row(p.take(n), row)
        } else {
            spec_hex_row(p.take(n), row)
        };
        head + spec_hex_rows(p.skip(n), row + 1)
    }
}

/// The canonical hex dump of a payload: 16 bytes per row, an eight-digit
/// offset prefix, a gap after the eighth byte, and an ASCII gutter.
pub open spec fn spec_hex_dump(p: Seq<u8>) -> Seq<char> {
    spec_hex_rows(p, 0)
}

/// The lower-case hex digit for a value below 16.
fn hex_digit_char(d: u8) -> (c: char)
    requires
        d < 16,
    ensures
        c == spec_hex_digit(d),
{
    if d < 10 {
        (('0' as u8) + d) as char
    } else {
        (('a' as u8) + (d - 10)) as char
    }
}

/// Appends the bare hex digits of `n`.
fn push_hex_digits(s: &mut String, n: usize)
    ensures
        final(s)@ == old(s)@ + spec_hex_digits(n as nat),
    decreases n,
{
    let ghost base = s@;
    if n < 16 {
        push_char(s, hex_digit_char(n as u8));
        assert(s@ =~= base + spec_hex_digits(n as nat));
    } else {
        push_hex_digits(s, n / 16);
        push_char(s, hex_digit_char((n % 16) as u8));
        assert(s@ =~= base + spec_hex_digits(n as nat));
    }
}

/// Appends `count` copies of one character.
fn push_repeat_char(s: &mut String, c: char, count: usize)
    ensures
        final(s)@ == old(s)@ + spec_repeat_char(c, count as int),
{
    let mut i: usize = 0;
    while i < count
        invariant
            i <= count,
            s@ == old(s)@ + spec_repeat_char(c, i as int),
        decreases count - i,
    {
        push_char(s, c);
        i = i + 1;
    }
}

/// Counts the hex digits of `n`.
fn hex_digit_count(n: usize) -> (r: usize)
    ensures
        r == spec_hex_digits(n as nat).len(),
        1 <= r <= n + 1,
    decreases n,
{
    if n < 16 {
        1
    } else {
        let rest = hex_digit_count(n / 16);
        assert(spec_hex_digits(n as nat).len() == spec_hex_digits((n / 16) as nat).len() + 1);
        rest + 1
    }
}

/// Appends a row offset in hex, zero-padded to at least eight digits.
fn push_offset_hex(s: &mut String, n: usize)
    ensures
        final(s)@ == old(s)@ + spec_offset_hex(n as nat),
{
    let ghost base = s@;
    let digits = hex_digit_count(n);
    if digits < 8 {
        push_repeat_char(s, '0', 8 - digits);
    }
    push_hex_digits(s, n);
    assert(s@ =~= base + spec_offset_hex(n as nat));
}

/// Renders a payload as the canonical hex dump.
/// Appends one hex-dump row for the `chunk_len` payload bytes at `pos`.
#[verifier::rlimit(60)]
fn push_hex_row(result: &mut String, payload: &[u8], pos: usize, chunk_len: usize, row: usize)
    requires
        pos + chunk_len <= payload@.len(),
        pos == 16 * row,
        1 <= chunk_len <= 16,
    ensures
        final(result)@ == old(result)@ + spec_hex_row(
            payload@.subrange(pos as int, pos + chunk_len),
            row as int,
        ),
{
    let ghost chunk = payload@.subrange(pos as int, pos + chunk_len);
    let plen = payload.len();
    let ghost base0 = result@;
    push_offset_hex(result, pos);
    push_char(result, ' ');
    push_char(result, ' ');
    proof {
        assert(result@ =~= base0 + spec_offset_hex((16 * row) as nat) + seq![' ', ' ']);
    }

    let ghost base1 = result@;
    let mut j: usize = 0;
    while j < chunk_len
        invariant
            j <= chunk_len,
            chunk_len <= 16,
            pos + chunk_len <= plen,
            plen == payload@.len(),
            chunk == payload@.subrange(pos as int, pos + chunk_len),
            base1 + spec_hex_cells(chunk, 0) == result@ + spec_hex_cells(chunk, j as int),
        decreases chunk_len - j,
    {
        let ghost pre = result@;
        if j == 8 {
            push_char(result, ' ');
        }
        let b = payload[pos + j];
        assert(b == chunk[j as int]);
        push_char(result, hex_digit_char(b / 16));
        push_char(result, hex_digit_char(b % 16));
        push_char(result, ' ');
        proof {
            let cell = seq![
                spec_hex_digit(chunk[j as int] / 16),
                spec_hex_digit(chunk[j as int] % 16),
                ' ',
            ];
            let lead = if j == 8 {
                seq![' '] + cell
            } else {
                cell
            };
            assert(result@ =~= pre + lead);
            assert(spec_hex_cells(chunk, j as int) == lead + spec_hex_cells(chunk, j + 1));
            assert(base1 + spec_hex_cells(chunk, 0) =~= result@ + spec_hex_cells(chunk, j + 1));
        }
        j = j + 1;
    }
    assert(result@ =~= base1 + spec_hex_cells(chunk, 0));

    if chunk_len < 16 {
        push_repeat_char(result, ' ', 3 * (16 - chunk_len));
        if chunk_len < 8 {
            push_char(result, ' ');
        }
    }
    proof {
        if chunk_len == 16 {
            assert(spec_row_padding(chunk_len as int) =~= Seq::<char>::empty());
        }
        assert(result@ =~= base1 + spec_hex_cells(chunk, 0) + spec_row_padding(chunk_len as int));
    }

    let ghost base2 = result@;
    push_char(result, ' ');
    push_char(result, '|');
    let ghost base3 = result@;
    let mut k: usize = 0;
    while k < chunk_len
        invariant
            k <= chunk_len,
            pos + chunk_len <= plen,
            plen == payload@.len(),
            chunk == payload@.subrange(pos as int, pos + chunk_len),
            result@ == base3 + spec_gutter(chunk).take(k as int),
        decreases chunk_len - k,
    {
        let b = payload[pos + k];
        assert(b == chunk[k as int]);
        if b >= 32 && b < 127 {
            push_char(result, b as char);
        } else {
            push_char(result, '.');
        }
        proof {
            assert(spec_gutter(chunk).take(k + 1) =~= spec_gutter(chunk).take(k as int).push(
                spec_gutter(chunk)[k as int],
            ));
        }
        k = k + 1;
    }
    assert(spec_gutter(chunk).take(chunk_len as int) =~= spec_gutter(chunk));
    push_char(result, '|');
    proof {
        assert(base2 =~= base0 + spec_offset_hex((16 * row) as nat) + seq![' ', ' ']
            + spec_hex_cells(chunk, 0) + spec_row_padding(chunk_len as int));
        assert(result@ =~= base2 + seq![' ', '|'] + spec_gutter(chunk) + seq!['|']) by {
            assert(result@ =~= base3 + spec_gutter(chunk) + seq!['|']);
            assert(base3 =~= base2 + seq![' ', '|']);
        }
        assert(result@ =~= base0 + spec_hex_row(chunk, row as int));
    }
}

/// Renders a payload as the canonical hex dump.
pub fn payload_to_hex_string(payload: &[u8]) -> (r: String)
    ensures
        r@ == spec_hex_dump(payload@),
{
    let mut result = String::new();
    let mut pos: usize = 0;
    let mut row: usize = 0;
    let plen = payload.len();
    proof {
        assert(payload@.skip(0) =~= payload@);
        assert(Seq::<char>::empty() + spec_hex_rows(payload@, 0) =~= spec_hex_rows(payload@, 0));
    }
    while pos < plen
        invariant
            plen == payload@.len(),
            pos <= plen,
            pos == 16 * row || pos == plen,
            spec_hex_dump(payload@) == result@ + spec_hex_rows(payload@.skip(pos as int), row as int),
        decreases plen - pos,
    {
        let ghost rest = payload@.skip(pos as int);
        let chunk_len: usize = if plen - pos >= 16 {
            16
        } else {
            plen - pos
        };
        let ghost chunk = rest.take(chunk_len as int);
        proof {
            assert(chunk =~= payload@.subrange(pos as int, pos + chunk_len));
            assert(rest.skip(chunk_len as int) =~= payload@.skip(pos + chunk_len));
        }
        let ghost iter_start = result@;
        if row > 0 {
            push_char(&mut result, '\n');
        }
        let ghost with_sep = result@;
        push_hex_row(&mut result, payload, pos, chunk_len, row);
        proof {
            let head = if row > 0 {
                seq!['\n'] + spec_hex_row(chunk, row as int)
            } else {
                spec_hex_row(chunk, row as int)
            };
            assert(result@ =~= with_sep + spec_hex_row(chunk, row as int));
            assert(result@ =~= iter_start + head);
            assert(spec_hex_rows(rest, row as int) == head + spec_hex_rows(
                rest.skip(chunk_len as int),
                row + 1,
            ));
            assert(spec_hex_dump(payload@) == result@ + spec_hex_rows(
                payload@.skip(pos + chunk_len),
                row + 1,
            )) by {
                assert(iter_start + (head + spec_hex_rows(rest.skip(chunk_len as int), row + 1))
                    =~= (iter_start + head) + spec_hex_rows(rest.skip(chunk_len as int), row + 1));
            }
        }
        pos = pos + chunk_len;
        row = row + 1;
    }
    proof {
        assert(spec_hex_rows(payload@.skip(pos as int), row as int) =~= Seq::<char>::empty());
        assert(result@ + Seq::<char>::empty() =~= result@);
    }
    result
}

} // verus!
