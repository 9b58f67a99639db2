//! Decoded console frames.

use vstd::prelude::*;
use vstd::slice::slice_to_vec;

use crate::msg::{Level, MsgType, MsgTypeView, Payload, Protocol, RadioStat, Record, Schema};
use crate::text;
use crate::wire::{decode, decoded_frame};

verus! {

/// A decoded console frame: owned copies of the message fields that the tests assert on.
#[derive(Debug, Clone, PartialEq)]
pub enum Frame {
    /// Boot banner: protocol version, firmware name and version, and per-boot session id.
    Hello {
        protocol_version: u8,
        firmware_name: String,
        firmware_version: String,
        session_id: u32,
    },
    /// A log record.
    Log { level: Level, uptime_us: u64, module: String, message: String },
    /// A printed line.
    Print { text: String },
    /// A structured event.
    Event { name: String, fields: Vec<(String, String)> },
    /// The writer's dropped-frame marker (queue overflow, unplugged drain).
    Dropped { count: u32 },
    /// A radio uplink that the gateway firmware forwarded: the authenticated payload verbatim,
    /// and how it was received.
    Uplink { src: u32, counter: u32, rssi: i16, lqi: u8, data: Vec<u8> },
    /// One chunk of a management reply, to be reassembled by `req_id`.
    Mgmt { req_id: u16, result: u8, chunk: u16, last: bool, data: Vec<u8> },
    /// A radio-diagnostics sample.
    Stat(RadioStat),
    /// A frame whose type is not modelled, or whose payload did not decode. It is kept, so that
    /// sequence accounting stays exact.
    Other(MsgType),
}

/// What a [`Frame`] holds.
pub enum FrameView {
    Hello {
        protocol_version: u8,
        firmware_name: Seq<char>,
        firmware_version: Seq<char>,
        session_id: u32,
    },
    Log { level: Level, uptime_us: u64, module: Seq<char>, message: Seq<char> },
    Print { text: Seq<char> },
    Event { name: Seq<char>, fields: Seq<(Seq<char>, Seq<char>)> },
    Dropped { count: u32 },
    Uplink { src: u32, counter: u32, rssi: i16, lqi: u8, data: Seq<u8> },
    Mgmt { req_id: u16, result: u8, chunk: u16, last: bool, data: Seq<u8> },
    Stat(RadioStat),
    Other(MsgTypeView),
}

/// The names and values of owned event fields.
pub open spec fn owned_fields(fields: Seq<(String, String)>) -> Seq<(Seq<char>, Seq<char>)> {
    Seq::new(fields.len(), |i: int| (fields[i].0@, fields[i].1@))
}

/// The names and values of borrowed event fields.
pub open spec fn borrowed_fields(fields: Seq<(&str, &str)>) -> Seq<(Seq<char>, Seq<char>)> {
    Seq::new(fields.len(), |i: int| (fields[i].0@, fields[i].1@))
}

impl View for Frame {
    type V = FrameView;

    open spec fn view(&self) -> FrameView {
        match self {
            Frame::Hello { protocol_version, firmware_name, firmware_version, session_id } =>
                FrameView::Hello {
                    protocol_version: *protocol_version,
                    firmware_name: firmware_name@,
                    firmware_version: firmware_version@,
                    session_id: *session_id,
                },
            Frame::Log { level, uptime_us, module, message } => FrameView::Log {
                level: *level,
                uptime_us: *uptime_us,
                module: module@,
                message: message@,
            },
            Frame::Print { text } => FrameView::Print { text: text@ },
            Frame::Event { name, fields } => FrameView::Event {
                name: name@,
                fields: owned_fields(fields@),
            },
            Frame::Dropped { count } => FrameView::Dropped { count: *count },
            Frame::Uplink { src, counter, rssi, lqi, data } => FrameView::Uplink {
                src: *src,
                counter: *counter,
                rssi: *rssi,
                lqi: *lqi,
                data: data@,
            },
            Frame::Mgmt { req_id, result, chunk, last, data } => FrameView::Mgmt {
                req_id: *req_id,
                result: *result,
                chunk: *chunk,
                last: *last,
                data: data@,
            },
            Frame::Stat(stat) => FrameView::Stat(*stat),
            Frame::Other(msg_type) => FrameView::Other(msg_type@),
        }
    }
}

/// The frame of a decoded payload: its fields, verbatim.
pub open spec fn record_frame(record: Record<'_>) -> FrameView {
    match record {
        Record::Hello(h) => FrameView::Hello {
            protocol_version: h.protocol_version,
            firmware_name: h.firmware_name@,
            firmware_version: h.firmware_version@,
            session_id: h.session_id,
        },
        Record::Log(l) => FrameView::Log {
            level: l.level,
            uptime_us: l.uptime_us,
            module: l.module@,
            message: l.message@,
        },
        Record::Print(p) => FrameView::Print { text: p.text@ },
        Record::Event(e) => FrameView::Event {
            name: e.name@,
            fields: borrowed_fields(e.fields@),
        },
        Record::Dropped(d) => FrameView::Dropped { count: d.count },
        Record::Uplink(u) => FrameView::Uplink {
            src: u.src,
            counter: u.counter,
            rssi: u.rssi,
            lqi: u.lqi,
            data: u.data@,
        },
        Record::MgmtResponse(m) => FrameView::Mgmt {
            req_id: m.req_id,
            result: m.result,
            chunk: m.chunk,
            last: m.last,
            data: m.data@,
        },
        Record::RadioStat(s) => FrameView::Stat(s),
    }
}

/// The frame of a message type and a decoded payload: the payload's frame where it was decoded with
/// the encoding of the message type, and the bare message type otherwise.
pub open spec fn typed_frame(msg_type: MsgTypeView, record: Option<Record<'_>>) -> FrameView {
    match record {
        Some(r) => if msg_type.schema() == Some(r.schema()) {
            record_frame(r)
        } else {
            FrameView::Other(msg_type)
        },
        None => FrameView::Other(msg_type),
    }
}

/// The frame of a message: its payload's where that decodes with the encoding of the message type,
/// and the bare message type where it does not, or where the type is not modelled.
pub open spec fn message_frame(
    msg_type: MsgTypeView,
    payload: Payload<'_>,
    protocol: Protocol,
) -> FrameView {
    match msg_type.schema() {
        Some(schema) => match decoded_frame(schema, payload, protocol) {
            Some(frame) => frame,
            None => FrameView::Other(msg_type),
        },
        None => FrameView::Other(msg_type),
    }
}

/// Copies event fields.
fn own_fields(fields: &Vec<(&str, &str)>) -> (r: Vec<(String, String)>)
    ensures
        owned_fields(r@) == borrowed_fields(fields@),
{
    let mut r: Vec<(String, String)> = Vec::new();
    let mut i: usize = 0;
    while i < fields.len()
        invariant
            i <= fields@.len(),
            r@.len() == i,
            forall|j: int|
                #![trigger r@[j]]
                0 <= j < i ==> r@[j].0@ == fields@[j].0@ && r@[j].1@ == fields@[j].1@,
        decreases fields@.len() - i,
    {
        let field: (&str, &str) = fields[i];
        r.push((field.0.to_owned(), field.1.to_owned()));
        i = i + 1;
    }
    assert(owned_fields(r@) =~= borrowed_fields(fields@));
    r
}

/// The owned frame of a message type and what came of decoding its payload.
pub fn own_frame(msg_type: MsgType, record: Option<Record<'_>>) -> (frame: Frame)
    ensures
        frame@ == typed_frame(msg_type@, record),
{
    match (msg_type.schema(), record) {
        (Some(Schema::Hello), Some(Record::Hello(h))) => Frame::Hello {
            protocol_version: h.protocol_version,
            firmware_name: h.firmware_name.to_owned(),
            firmware_version: h.firmware_version.to_owned(),
            session_id: h.session_id,
        },
        (Some(Schema::Log), Some(Record::Log(l))) => Frame::Log {
            level: l.level,
            uptime_us: l.uptime_us,
            module: l.module.to_owned(),
            message: l.message.to_owned(),
        },
        (Some(Schema::Print), Some(Record::Print(p))) => Frame::Print { text: p.text.to_owned() },
        (Some(Schema::Event), Some(Record::Event(e))) => Frame::Event {
            name: e.name.to_owned(),
            fields: own_fields(&e.fields),
        },
        (Some(Schema::Dropped), Some(Record::Dropped(d))) => Frame::Dropped { count: d.count },
        (Some(Schema::Uplink), Some(Record::Uplink(u))) => Frame::Uplink {
            src: u.src,
            counter: u.counter,
            rssi: u.rssi,
            lqi: u.lqi,
            data: slice_to_vec(u.data),
        },
        (Some(Schema::MgmtResponse), Some(Record::MgmtResponse(m))) => Frame::Mgmt {
            req_id: m.req_id,
            result: m.result,
            chunk: m.chunk,
            last: m.last,
            data: slice_to_vec(m.data),
        },
        (Some(Schema::RadioStat), Some(Record::RadioStat(s))) => Frame::Stat(s),
        _ => Frame::Other(msg_type),
    }
}

/// Decodes a message into an owned frame. No message is lost: what is not modelled or does not
/// decode becomes [`Frame::Other`].
pub fn to_frame(msg_type: MsgType, payload: Payload<'_>, protocol: &Protocol) -> (frame: Frame)
    ensures
        frame@ == message_frame(msg_type@, payload, *protocol),
        payload.bytes@.len() == 0 && msg_type@.schema() != Some(Schema::RadioStat) ==> frame@
            == FrameView::Other(msg_type@),
{
    let record: Option<Record<'_>> = match msg_type.schema() {
        Some(schema) => decode(schema, payload, protocol),
        None => None,
    };
    own_frame(msg_type, record)
}

impl FrameView {
    /// The human-readable text of a log or print frame.
    pub open spec fn text(self) -> Option<Seq<char>> {
        match self {
            FrameView::Log { message, .. } => Some(message),
            FrameView::Print { text } => Some(text),
            _ => None,
        }
    }

    /// Whether the frame has a text that contains `needle`.
    pub open spec fn mentions(self, needle: Seq<char>) -> bool {
        self.text() matches Some(t) && text::contains_text(t, needle)
    }
}

/// The human-readable text of a log or print frame, if any (for `grep`-style assertions).
pub fn frame_text(f: &Frame) -> (r: Option<&str>)
    ensures
        match r {
            Some(t) => f@.text() == Some(t@),
            None => f@.text() is None,
        },
{
    match f {
        Frame::Log { message, .. } => Some(message.as_str()),
        Frame::Print { text } => Some(text.as_str()),
        _ => None,
    }
}

/// Tests whether a frame has a text that contains `needle`.
pub fn frame_mentions(f: &Frame, needle: &str) -> (r: bool)
    ensures
        r == f@.mentions(needle@),
{
    match frame_text(f) {
        Some(t) => text::contains(t, needle),
        None => false,
    }
}

} // verus!
