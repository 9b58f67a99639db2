//! Laws of frames: what a message becomes, and the text that a frame has.

use vstd::prelude::*;

use crate::encoding::{
    dropped_field, event_fields, hello_fields, log_fields, mgmt_fields, print_field, uplink_fields,
};
use crate::frame::{
    borrowed_fields, message_frame, owned_fields, record_frame, typed_frame, Frame, FrameView,
};
use crate::laws::text::law_contains_iff_put_together_from;
use crate::msg::{
    Dropped, Event, Hello, Level, LevelCodes, Log, MgmtResponse, MsgType, MsgTypeView, Payload,
    Print, Protocol, RadioStat, Record, Schema, Uplink,
};
use crate::window::{frame_views, got_mentions};

verus! {

/// The text of a log frame is its message, whatever its level, time and module; the text of a print
/// frame is its text; no other frame has one.
pub proof fn law_text_is_the_message(frame: FrameView, s: Seq<char>)
    ensures
        frame.text() == Some(s) <==> {
            ||| exists|level: Level, uptime_us: u64, module: Seq<char>|
                frame == #[trigger] log_frame_of(level, uptime_us, module, s)
            ||| frame == (FrameView::Print { text: s })
        },
        frame.text() is None <==> !(frame is Log) && !(frame is Print),
{
    if let FrameView::Log { level, uptime_us, module, message } = frame {
        assert(frame == log_frame_of(level, uptime_us, module, message));
    }
}

/// The log frame with these fields.
pub open spec fn log_frame_of(
    level: Level,
    uptime_us: u64,
    module: Seq<char>,
    message: Seq<char>,
) -> FrameView {
    FrameView::Log { level, uptime_us, module, message }
}

/// A log frame of any level mentions exactly what stands in its message, and a print frame what
/// stands in its text; no other frame mentions anything. A wait for text answers accordingly on
/// what a read gives, and never on nothing.
pub proof fn law_mentions_what_stands_in_the_text(frame: FrameView, needle: Seq<char>)
    ensures
        frame.mentions(needle) <==> {
            ||| frame matches FrameView::Log { message, .. } && exists|
                before: Seq<char>,
                after: Seq<char>,
            |
                message == #[trigger] (before + needle + after)
            ||| frame matches FrameView::Print { text } && exists|
                before: Seq<char>,
                after: Seq<char>,
            |
                text == #[trigger] (before + needle + after)
        },
        got_mentions(Some(frame), needle) == frame.mentions(needle),
        !got_mentions(None, needle),
{
    match frame {
        FrameView::Log { message, .. } => {
            law_contains_iff_put_together_from(message, needle);
        },
        FrameView::Print { text } => {
            law_contains_iff_put_together_from(text, needle);
        },
        _ => {},
    }
}

/// A radio-diagnostics message that carries a sample becomes that sample, whatever its bytes are;
/// one that carries none becomes its bare type.
pub proof fn law_every_radio_sample_arrives(payload: Payload<'_>, protocol: Protocol, s: RadioStat)
    ensures
        message_frame(MsgTypeView::RadioStat, payload, protocol) == FrameView::Stat(s)
            <==> payload.stat == Some(s),
        message_frame(MsgTypeView::RadioStat, payload, protocol) == FrameView::Other(
            MsgTypeView::RadioStat,
        ) <==> payload.stat is None,
{
}

/// No other message carries a sample: what becomes of it does not depend on one.
pub proof fn law_samples_matter_to_radio_messages_only(
    msg_type: MsgTypeView,
    a: Payload<'_>,
    b: Payload<'_>,
    protocol: Protocol,
)
    requires
        a.bytes@ == b.bytes@,
        !(msg_type is RadioStat),
    ensures
        message_frame(msg_type, a, protocol) == message_frame(msg_type, b, protocol),
        !(message_frame(msg_type, a, protocol) is Stat),
{
}

/// A banner, a printed line, a count, an uplink and a reply chunk arrive exactly if their fields are
/// in the bytes, and then as these fields; otherwise the bare type arrives.
pub proof fn law_records_arrive_iff_their_fields_do(payload: Payload<'_>, protocol: Protocol)
    ensures
        message_frame(MsgTypeView::Hello, payload, protocol) == (match hello_fields(
            payload.bytes@,
        ) {
            Some(f) => FrameView::Hello {
                protocol_version: f.0,
                firmware_name: f.1,
                firmware_version: f.2,
                session_id: f.3,
            },
            None => FrameView::Other(MsgTypeView::Hello),
        }),
        message_frame(MsgTypeView::Print, payload, protocol) == (match print_field(
            payload.bytes@,
        ) {
            Some(text) => FrameView::Print { text },
            None => FrameView::Other(MsgTypeView::Print),
        }),
        message_frame(MsgTypeView::Dropped, payload, protocol) == (match dropped_field(
            payload.bytes@,
        ) {
            Some(count) => FrameView::Dropped { count },
            None => FrameView::Other(MsgTypeView::Dropped),
        }),
        message_frame(MsgTypeView::Uplink, payload, protocol) == (match uplink_fields(
            payload.bytes@,
        ) {
            Some(f) => FrameView::Uplink {
                src: f.0,
                counter: f.1,
                rssi: f.2,
                lqi: f.3,
                data: f.4,
            },
            None => FrameView::Other(MsgTypeView::Uplink),
        }),
        message_frame(MsgTypeView::MgmtResponse, payload, protocol) == (match mgmt_fields(
            payload.bytes@,
        ) {
            Some(f) => FrameView::Mgmt {
                req_id: f.0,
                result: f.1,
                chunk: f.2,
                last: f.3,
                data: f.4,
            },
            None => FrameView::Other(MsgTypeView::MgmtResponse),
        }),
{
}

/// A log record arrives exactly if its fields are in the bytes and its number names a level, and
/// then as these fields.
pub proof fn law_log_arrives_iff_its_level_is_named(payload: Payload<'_>, protocol: Protocol)
    ensures
        match log_fields(payload.bytes@) {
            Some(f) => match message_frame(MsgTypeView::Log, payload, protocol) {
                FrameView::Log { level, uptime_us, module, message } => level_has_number(
                    protocol.levels,
                    level,
                    f.0,
                ) && uptime_us == f.1 && module == f.2 && message == f.3,
                other => other == FrameView::Other(MsgTypeView::Log) && f.0
                    != protocol.levels.error && f.0 != protocol.levels.warn && f.0
                    != protocol.levels.info && f.0 != protocol.levels.debug && f.0
                    != protocol.levels.trace,
            },
            None => message_frame(MsgTypeView::Log, payload, protocol) == FrameView::Other(
                MsgTypeView::Log,
            ),
        },
{
}

/// Whether the wire names `level` by `code`.
pub open spec fn level_has_number(levels: LevelCodes, level: Level, code: u32) -> bool {
    match level {
        Level::Error => code == levels.error,
        Level::Warn => code == levels.warn,
        Level::Info => code == levels.info,
        Level::Debug => code == levels.debug,
        Level::Trace => code == levels.trace,
    }
}

/// A number names a level exactly if it is one of the five, and then one that has this number.
pub proof fn law_level_has_the_number(levels: LevelCodes, code: u32)
    ensures
        levels.level(code) is None <==> code != levels.error && code != levels.warn && code
            != levels.info && code != levels.debug && code != levels.trace,
        levels.level(code) matches Some(level) ==> level_has_number(levels, level, code),
{
}

/// An event arrives exactly if its fields are in the bytes and there are no more of them than an
/// event can have, and then with all of them.
pub proof fn law_event_arrives_iff_it_has_room(payload: Payload<'_>, protocol: Protocol)
    ensures
        message_frame(MsgTypeView::Event, payload, protocol) == (match event_fields(
            payload.bytes@,
        ) {
            Some(f) if f.1.len() <= protocol.event_fields => FrameView::Event {
                name: f.0,
                fields: f.1,
            },
            _ => FrameView::Other(MsgTypeView::Event),
        }),
{
}

/// A type that is not modelled arrives bare, whatever its payload.
pub proof fn law_unmodelled_types_arrive_bare(
    msg_type: MsgTypeView,
    payload: Payload<'_>,
    protocol: Protocol,
)
    requires
        msg_type is ShellCommand || msg_type is ShellResponse || msg_type is MgmtRequest
            || msg_type is Unlisted,
    ensures
        message_frame(msg_type, payload, protocol) == FrameView::Other(msg_type),
        msg_type.schema() is None,
{
}

/// Without a decoded record, the bare type arrives, whatever the type is.
pub proof fn law_undecoded_type_arrives_bare(msg_type: MsgTypeView)
    ensures
        typed_frame(msg_type, None) == FrameView::Other(msg_type),
{
}

/// Each modelled type has its own encoding, and each record the encoding of its type.
pub proof fn law_types_have_their_encodings(msg_type: MsgTypeView, record: Record<'_>)
    ensures
        msg_type.schema() == Some(Schema::Hello) <==> msg_type is Hello,
        msg_type.schema() == Some(Schema::Log) <==> msg_type is Log,
        msg_type.schema() == Some(Schema::Print) <==> msg_type is Print,
        msg_type.schema() == Some(Schema::Event) <==> msg_type is Event,
        msg_type.schema() == Some(Schema::Dropped) <==> msg_type is Dropped,
        msg_type.schema() == Some(Schema::Uplink) <==> msg_type is Uplink,
        msg_type.schema() == Some(Schema::MgmtResponse) <==> msg_type is MgmtResponse,
        msg_type.schema() == Some(Schema::RadioStat) <==> msg_type is RadioStat,
        record.schema() == Schema::Hello <==> record is Hello,
        record.schema() == Schema::Log <==> record is Log,
        record.schema() == Schema::Print <==> record is Print,
        record.schema() == Schema::Event <==> record is Event,
        record.schema() == Schema::Dropped <==> record is Dropped,
        record.schema() == Schema::Uplink <==> record is Uplink,
        record.schema() == Schema::MgmtResponse <==> record is MgmtResponse,
        record.schema() == Schema::RadioStat <==> record is RadioStat,
{
}

/// A type that is not listed has the name that it came with, and the others are named as they are
/// written.
pub proof fn law_types_are_named_as_written(name: Seq<char>)
    ensures
        MsgTypeView::Unlisted(name).name() == name,
        MsgTypeView::Hello.name() == "Hello"@,
        MsgTypeView::Log.name() == "Log"@,
        MsgTypeView::Print.name() == "Print"@,
        MsgTypeView::Event.name() == "Event"@,
        MsgTypeView::Dropped.name() == "Dropped"@,
        MsgTypeView::ShellCommand.name() == "ShellCommand"@,
        MsgTypeView::ShellResponse.name() == "ShellResponse"@,
        MsgTypeView::Uplink.name() == "Uplink"@,
        MsgTypeView::MgmtRequest.name() == "MgmtRequest"@,
        MsgTypeView::MgmtResponse.name() == "MgmtResponse"@,
        MsgTypeView::RadioStat.name() == "RadioStat"@,
{
}

/// Event fields keep their number, their order, their names and their values.
pub proof fn law_event_fields_keep_their_texts(
    owned: Seq<(String, String)>,
    borrowed: Seq<(&str, &str)>,
)
    ensures
        owned_fields(owned).len() == owned.len(),
        borrowed_fields(borrowed).len() == borrowed.len(),
        forall|i: int|
            0 <= i < owned.len() ==> #[trigger] owned_fields(owned)[i] == (
                owned[i].0@,
                owned[i].1@,
            ),
        forall|i: int|
            0 <= i < borrowed.len() ==> #[trigger] borrowed_fields(borrowed)[i] == (
                borrowed[i].0@,
                borrowed[i].1@,
            ),
{
}

/// A decoded record's frame has its fields, each in its place.
pub proof fn law_record_frame_has_the_fields(
    h: Hello<'_>,
    l: Log<'_>,
    p: Print<'_>,
    e: Event<'_>,
    d: Dropped,
    u: Uplink<'_>,
    m: MgmtResponse<'_>,
    s: RadioStat,
)
    ensures
        record_frame(Record::Hello(h)) matches FrameView::Hello {
            protocol_version,
            firmware_name,
            firmware_version,
            session_id,
        } && protocol_version == h.protocol_version && firmware_name == h.firmware_name@
            && firmware_version == h.firmware_version@ && session_id == h.session_id,
        record_frame(Record::Log(l)) matches FrameView::Log {
            level,
            uptime_us,
            module,
            message,
        } && level == l.level && uptime_us == l.uptime_us && module == l.module@ && message
            == l.message@,
        record_frame(Record::Print(p)) matches FrameView::Print { text } && text == p.text@,
        record_frame(Record::Event(e)) matches FrameView::Event { name, fields } && name == e.name@
            && fields.len() == e.fields@.len() && forall|i: int|
            0 <= i < fields.len() ==> #[trigger] fields[i] == (e.fields@[i].0@, e.fields@[i].1@),
        record_frame(Record::Dropped(d)) matches FrameView::Dropped { count } && count == d.count,
        record_frame(Record::Uplink(u)) matches FrameView::Uplink { src, counter, rssi, lqi, data }
            && src == u.src && counter == u.counter && rssi == u.rssi && lqi == u.lqi && data
            == u.data@,
        record_frame(Record::MgmtResponse(m)) matches FrameView::Mgmt {
            req_id,
            result,
            chunk,
            last,
            data,
        } && req_id == m.req_id && result == m.result && chunk == m.chunk && last == m.last && data
            == m.data@,
        record_frame(Record::RadioStat(s)) matches FrameView::Stat(stat) && stat == s,
{
}

/// What a frame holds is what its fields hold: frames whose views agree agree in every field.
pub proof fn law_frame_views_show_every_field(f: Frame, t: MsgType)
    ensures
        f matches Frame::Hello {
            protocol_version,
            firmware_name,
            firmware_version,
            session_id,
        } ==> f@ == (FrameView::Hello {
            protocol_version,
            firmware_name: firmware_name@,
            firmware_version: firmware_version@,
            session_id,
        }),
        f matches Frame::Log { level, uptime_us, module, message } ==> f@ == (FrameView::Log {
            level,
            uptime_us,
            module: module@,
            message: message@,
        }),
        f matches Frame::Print { text } ==> f@ == (FrameView::Print { text: text@ }),
        f matches Frame::Event { name, fields } ==> (f@ matches FrameView::Event {
            name: n,
            fields: fs,
        } && n == name@ && fs.len() == fields@.len() && forall|i: int|
            0 <= i < fs.len() ==> #[trigger] fs[i] == (fields@[i].0@, fields@[i].1@)),
        f matches Frame::Dropped { count } ==> f@ == (FrameView::Dropped { count }),
        f matches Frame::Uplink { src, counter, rssi, lqi, data } ==> f@ == (FrameView::Uplink {
            src,
            counter,
            rssi,
            lqi,
            data: data@,
        }),
        f matches Frame::Mgmt { req_id, result, chunk, last, data } ==> f@ == (FrameView::Mgmt {
            req_id,
            result,
            chunk,
            last,
            data: data@,
        }),
        f matches Frame::Stat(stat) ==> f@ == FrameView::Stat(stat),
        f matches Frame::Other(msg_type) ==> f@ == FrameView::Other(msg_type@),
        t matches MsgType::Unlisted(name) ==> t@ == MsgTypeView::Unlisted(name@),
        t is Hello <==> t@ is Hello,
        t is Log <==> t@ is Log,
        t is Print <==> t@ is Print,
        t is Event <==> t@ is Event,
        t is Dropped <==> t@ is Dropped,
        t is ShellCommand <==> t@ is ShellCommand,
        t is ShellResponse <==> t@ is ShellResponse,
        t is Uplink <==> t@ is Uplink,
        t is MgmtRequest <==> t@ is MgmtRequest,
        t is MgmtResponse <==> t@ is MgmtResponse,
        t is RadioStat <==> t@ is RadioStat,
{
}

/// What the frames of a list hold is listed in their order, one for each.
pub proof fn law_collected_views_are_in_order(frames: Seq<Frame>)
    ensures
        frame_views(frames).len() == frames.len(),
        forall|i: int| 0 <= i < frames.len() ==> #[trigger] frame_views(frames)[i] == frames[i]@,
{
}

} // verus!
