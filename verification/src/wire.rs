//! Decoding message payloads.
//!
//! A payload is postcard's encoding of a record, which is that of its fields one after the other.
//! Postcard decodes a tuple of the fields' types in the same way. A level is written as its number.
//! [`crate::encoding`] says how the fields are encoded.

use vstd::prelude::*;

use crate::encoding::{
    dropped_field, event_fields, hello_fields, log_fields, mgmt_fields, print_field, uplink_fields,
};
use crate::frame::{borrowed_fields, record_frame, FrameView};
use crate::msg::{
    Dropped, Event, Hello, Log, MgmtResponse, Payload, Print, Protocol, Record, Schema, Uplink,
};

verus! {

/// Why postcard could not decode.
#[verifier::external_type_specification]
#[verifier::external_body]
pub struct ExPostcardError(postcard::Error);

/// Calls `postcard::from_bytes` for the fields of a [`Hello`], which it reads one after the other,
/// and fails where one of them is not there.
#[verifier::external_body]
fn read_hello(bytes: &[u8]) -> (r: Result<(u8, &str, &str, u32), postcard::Error>)
    ensures
        match hello_fields(bytes@) {
            Some(v) => r matches Ok(h) && (h.0, h.1@, h.2@, h.3) == v,
            None => r is Err,
        },
{
    postcard::from_bytes::<(u8, &str, &str, u32)>(bytes)
}

/// Calls `postcard::from_bytes` for the fields of a [`Log`], the level as its number. It reads them
/// one after the other, and fails where one of them is not there.
#[verifier::external_body]
fn read_log(bytes: &[u8]) -> (r: Result<(u32, u64, &str, &str), postcard::Error>)
    ensures
        match log_fields(bytes@) {
            Some(v) => r matches Ok(l) && (l.0, l.1, l.2@, l.3@) == v,
            None => r is Err,
        },
{
    postcard::from_bytes::<(u32, u64, &str, &str)>(bytes)
}

/// Calls `postcard::from_bytes` for the field of a [`Print`]: the text at the start of the bytes,
/// and an error where there is none.
#[verifier::external_body]
fn read_text(bytes: &[u8]) -> (r: Result<&str, postcard::Error>)
    ensures
        match print_field(bytes@) {
            Some(v) => r matches Ok(t) && t@ == v,
            None => r is Err,
        },
{
    postcard::from_bytes::<&str>(bytes)
}

/// Calls `postcard::from_bytes` for the fields of an [`Event`], a text and a list of pairs of
/// texts. It reads them one after the other, and fails where one of them is not there.
#[verifier::external_body]
fn read_event(bytes: &[u8]) -> (r: Result<(&str, Vec<(&str, &str)>), postcard::Error>)
    ensures
        match event_fields(bytes@) {
            Some(v) => r matches Ok(e) && (e.0@, borrowed_fields(e.1@)) == v,
            None => r is Err,
        },
{
    postcard::from_bytes::<(&str, Vec<(&str, &str)>)>(bytes)
}

/// Calls `postcard::from_bytes` for the field of a [`Dropped`]: the number at the start of the
/// bytes, and an error where there is none.
#[verifier::external_body]
fn read_count(bytes: &[u8]) -> (r: Result<u32, postcard::Error>)
    ensures
        match dropped_field(bytes@) {
            Some(v) => r matches Ok(n) && n == v,
            None => r is Err,
        },
{
    postcard::from_bytes::<u32>(bytes)
}

/// Calls `postcard::from_bytes` for the fields of an [`Uplink`], which it reads one after the
/// other, and fails where one of them is not there.
#[verifier::external_body]
fn read_uplink(bytes: &[u8]) -> (r: Result<(u32, u32, i16, u8, &[u8]), postcard::Error>)
    ensures
        match uplink_fields(bytes@) {
            Some(v) => r matches Ok(u) && (u.0, u.1, u.2, u.3, u.4@) == v,
            None => r is Err,
        },
{
    postcard::from_bytes::<(u32, u32, i16, u8, &[u8])>(bytes)
}

/// Calls `postcard::from_bytes` for the fields of a [`MgmtResponse`], which it reads one after the
/// other, and fails where one of them is not there.
#[verifier::external_body]
fn read_mgmt(bytes: &[u8]) -> (r: Result<(u16, u8, u16, bool, &[u8]), postcard::Error>)
    ensures
        match mgmt_fields(bytes@) {
            Some(v) => r matches Ok(m) && (m.0, m.1, m.2, m.3, m.4@) == v,
            None => r is Err,
        },
{
    postcard::from_bytes::<(u16, u8, u16, bool, &[u8])>(bytes)
}

/// The frame of a log record: none where its number names no level.
pub open spec fn log_frame(
    code: u32,
    uptime_us: u64,
    module: Seq<char>,
    message: Seq<char>,
    protocol: Protocol,
) -> Option<FrameView> {
    match protocol.levels.level(code) {
        Some(level) => Some(FrameView::Log { level, uptime_us, module, message }),
        None => None,
    }
}

/// The frame of an event: none where it has more fields than an event can have.
pub open spec fn event_frame(
    name: Seq<char>,
    fields: Seq<(Seq<char>, Seq<char>)>,
    protocol: Protocol,
) -> Option<FrameView> {
    if fields.len() <= protocol.event_fields {
        Some(FrameView::Event { name, fields })
    } else {
        None
    }
}

/// The frame of a payload in an encoding; `None` where the payload does not decode.
pub open spec fn decoded_frame(
    schema: Schema,
    payload: Payload<'_>,
    protocol: Protocol,
) -> Option<FrameView> {
    match schema {
        Schema::Hello => match hello_fields(payload.bytes@) {
            Some((protocol_version, firmware_name, firmware_version, session_id)) => Some(
                FrameView::Hello { protocol_version, firmware_name, firmware_version, session_id },
            ),
            None => None,
        },
        Schema::Log => match log_fields(payload.bytes@) {
            Some((code, uptime_us, module, message)) => log_frame(
                code,
                uptime_us,
                module,
                message,
                protocol,
            ),
            None => None,
        },
        Schema::Print => match print_field(payload.bytes@) {
            Some(text) => Some(FrameView::Print { text }),
            None => None,
        },
        Schema::Event => match event_fields(payload.bytes@) {
            Some((name, fields)) => event_frame(name, fields, protocol),
            None => None,
        },
        Schema::Dropped => match dropped_field(payload.bytes@) {
            Some(count) => Some(FrameView::Dropped { count }),
            None => None,
        },
        Schema::Uplink => match uplink_fields(payload.bytes@) {
            Some((src, counter, rssi, lqi, data)) => Some(
                FrameView::Uplink { src, counter, rssi, lqi, data },
            ),
            None => None,
        },
        Schema::MgmtResponse => match mgmt_fields(payload.bytes@) {
            Some((req_id, result, chunk, last, data)) => Some(
                FrameView::Mgmt { req_id, result, chunk, last, data },
            ),
            None => None,
        },
        Schema::RadioStat => match payload.stat {
            Some(stat) => Some(FrameView::Stat(stat)),
            None => None,
        },
    }
}

/// The log record of decoded fields: none where the number names no level.
pub fn log_record<'a>(fields: (u32, u64, &'a str, &'a str), protocol: &Protocol) -> (r: Option<
    Record<'a>,
>)
    ensures
        match r {
            Some(record) => record is Log && log_frame(
                fields.0,
                fields.1,
                fields.2@,
                fields.3@,
                *protocol,
            ) == Some(record_frame(record)),
            None => protocol.levels.level(fields.0) is None,
        },
{
    match protocol.levels.level_of(fields.0) {
        Some(level) => Some(
            Record::Log(
                Log { level, uptime_us: fields.1, module: fields.2, message: fields.3 },
            ),
        ),
        None => None,
    }
}

/// The event of decoded fields: none where it has more fields than an event can have.
pub fn event_record<'a>(fields: (&'a str, Vec<(&'a str, &'a str)>), protocol: &Protocol) -> (r:
    Option<Record<'a>>)
    ensures
        match r {
            Some(record) => record is Event && event_frame(
                fields.0@,
                borrowed_fields(fields.1@),
                *protocol,
            ) == Some(record_frame(record)),
            None => fields.1@.len() > protocol.event_fields,
        },
{
    if fields.1.len() <= protocol.event_fields {
        Some(Record::Event(Event { name: fields.0, fields: fields.1 }))
    } else {
        None
    }
}

/// Decodes a payload.
pub fn decode<'a>(schema: Schema, payload: Payload<'a>, protocol: &Protocol) -> (r: Option<
    Record<'a>,
>)
    ensures
        match r {
            Some(record) => record.schema() == schema && decoded_frame(schema, payload, *protocol)
                == Some(record_frame(record)),
            None => decoded_frame(schema, payload, *protocol) is None,
        },
        payload.bytes@.len() == 0 && schema != Schema::RadioStat ==> r is None,
{
    match schema {
        Schema::Hello => match read_hello(payload.bytes) {
            Ok(h) => Some(
                Record::Hello(
                    Hello {
                        protocol_version: h.0,
                        firmware_name: h.1,
                        firmware_version: h.2,
                        session_id: h.3,
                    },
                ),
            ),
            Err(_) => None,
        },
        Schema::Log => match read_log(payload.bytes) {
            Ok(l) => log_record(l, protocol),
            Err(_) => None,
        },
        Schema::Print => match read_text(payload.bytes) {
            Ok(text) => Some(Record::Print(Print { text })),
            Err(_) => None,
        },
        Schema::Event => match read_event(payload.bytes) {
            Ok(e) => event_record(e, protocol),
            Err(_) => None,
        },
        Schema::Dropped => match read_count(payload.bytes) {
            Ok(count) => Some(Record::Dropped(Dropped { count })),
            Err(_) => None,
        },
        Schema::Uplink => match read_uplink(payload.bytes) {
            Ok(u) => Some(
                Record::Uplink(Uplink { src: u.0, counter: u.1, rssi: u.2, lqi: u.3, data: u.4 }),
            ),
            Err(_) => None,
        },
        Schema::MgmtResponse => match read_mgmt(payload.bytes) {
            Ok(m) => Some(
                Record::MgmtResponse(
                    MgmtResponse {
                        req_id: m.0,
                        result: m.1,
                        chunk: m.2,
                        last: m.3,
                        data: m.4,
                    },
                ),
            ),
            Err(_) => None,
        },
        Schema::RadioStat => match payload.stat {
            Some(stat) => Some(Record::RadioStat(stat)),
            None => None,
        },
    }
}

} // verus!
