//! The console messages as plain values.
//!
//! The link's framing and checksums, and the numbers and limits in [`Protocol`], belong to the
//! protocol crate that the firmware and its host tools share. What arrives here is a message type
//! and the bytes of a payload, whose fields stand in it one after the other in postcard's encoding.

use vstd::prelude::*;

verus! {

/// The severity of a log record.
#[derive(Debug, Clone, Copy, PartialEq, Eq, Structural)]
pub enum Level {
    Error,
    Warn,
    Info,
    Debug,
    Trace,
}

/// The numbers by which the wire names the levels.
#[derive(Debug, Clone, Copy)]
pub struct LevelCodes {
    pub error: u32,
    pub warn: u32,
    pub info: u32,
    pub debug: u32,
    pub trace: u32,
}

impl LevelCodes {
    /// The level that a number names, if any.
    pub open spec fn level(self, code: u32) -> Option<Level> {
        if code == self.error {
            Some(Level::Error)
        } else if code == self.warn {
            Some(Level::Warn)
        } else if code == self.info {
            Some(Level::Info)
        } else if code == self.debug {
            Some(Level::Debug)
        } else if code == self.trace {
            Some(Level::Trace)
        } else {
            None
        }
    }

    /// Finds the level that a number names.
    pub fn level_of(&self, code: u32) -> (r: Option<Level>)
        ensures
            r == self.level(code),
    {
        if code == self.error {
            Some(Level::Error)
        } else if code == self.warn {
            Some(Level::Warn)
        } else if code == self.info {
            Some(Level::Info)
        } else if code == self.debug {
            Some(Level::Debug)
        } else if code == self.trace {
            Some(Level::Trace)
        } else {
            None
        }
    }
}

/// What the protocol crate fixes of the payloads.
#[derive(Debug, Clone, Copy)]
pub struct Protocol {
    pub levels: LevelCodes,
    /// The most fields that an event can have.
    pub event_fields: usize,
}

/// The type of a console message.
#[derive(Debug, Clone, PartialEq)]
pub enum MsgType {
    Hello,
    Log,
    Print,
    Event,
    Dropped,
    ShellCommand,
    ShellResponse,
    Uplink,
    MgmtRequest,
    MgmtResponse,
    RadioStat,
    /// Any other type of the protocol, by its name.
    Unlisted(String),
}

/// What a [`MsgType`] stands for.
pub enum MsgTypeView {
    Hello,
    Log,
    Print,
    Event,
    Dropped,
    ShellCommand,
    ShellResponse,
    Uplink,
    MgmtRequest,
    MgmtResponse,
    RadioStat,
    Unlisted(Seq<char>),
}

impl View for MsgType {
    type V = MsgTypeView;

    open spec fn view(&self) -> MsgTypeView {
        match self {
            MsgType::Hello => MsgTypeView::Hello,
            MsgType::Log => MsgTypeView::Log,
            MsgType::Print => MsgTypeView::Print,
            MsgType::Event => MsgTypeView::Event,
            MsgType::Dropped => MsgTypeView::Dropped,
            MsgType::ShellCommand => MsgTypeView::ShellCommand,
            MsgType::ShellResponse => MsgTypeView::ShellResponse,
            MsgType::Uplink => MsgTypeView::Uplink,
            MsgType::MgmtRequest => MsgTypeView::MgmtRequest,
            MsgType::MgmtResponse => MsgTypeView::MgmtResponse,
            MsgType::RadioStat => MsgTypeView::RadioStat,
            MsgType::Unlisted(name) => MsgTypeView::Unlisted(name@),
        }
    }
}

/// The payload encodings that the harness models.
#[derive(Debug, Clone, Copy, PartialEq, Eq, Structural)]
pub enum Schema {
    Hello,
    Log,
    Print,
    Event,
    Dropped,
    Uplink,
    MgmtResponse,
    RadioStat,
}

impl MsgTypeView {
    /// The name of the type.
    pub open spec fn name(self) -> Seq<char> {
        match self {
            MsgTypeView::Hello => "Hello"@,
            MsgTypeView::Log => "Log"@,
            MsgTypeView::Print => "Print"@,
            MsgTypeView::Event => "Event"@,
            MsgTypeView::Dropped => "Dropped"@,
            MsgTypeView::ShellCommand => "ShellCommand"@,
            MsgTypeView::ShellResponse => "ShellResponse"@,
            MsgTypeView::Uplink => "Uplink"@,
            MsgTypeView::MgmtRequest => "MgmtRequest"@,
            MsgTypeView::MgmtResponse => "MgmtResponse"@,
            MsgTypeView::RadioStat => "RadioStat"@,
            MsgTypeView::Unlisted(name) => name,
        }
    }

    /// The encoding of the payload, for the types that the harness models.
    pub open spec fn schema(self) -> Option<Schema> {
        match self {
            MsgTypeView::Hello => Some(Schema::Hello),
            MsgTypeView::Log => Some(Schema::Log),
            MsgTypeView::Print => Some(Schema::Print),
            MsgTypeView::Event => Some(Schema::Event),
            MsgTypeView::Dropped => Some(Schema::Dropped),
            MsgTypeView::Uplink => Some(Schema::Uplink),
            MsgTypeView::MgmtResponse => Some(Schema::MgmtResponse),
            MsgTypeView::RadioStat => Some(Schema::RadioStat),
            _ => None,
        }
    }
}

impl MsgType {
    /// The name of the type.
    pub fn name(&self) -> (r: &str)
        ensures
            r@ == self@.name(),
    {
        match self {
            MsgType::Hello => "Hello",
            MsgType::Log => "Log",
            MsgType::Print => "Print",
            MsgType::Event => "Event",
            MsgType::Dropped => "Dropped",
            MsgType::ShellCommand => "ShellCommand",
            MsgType::ShellResponse => "ShellResponse",
            MsgType::Uplink => "Uplink",
            MsgType::MgmtRequest => "MgmtRequest",
            MsgType::MgmtResponse => "MgmtResponse",
            MsgType::RadioStat => "RadioStat",
            MsgType::Unlisted(name) => name.as_str(),
        }
    }

    /// The encoding that a payload of this type is to be decoded with; `None` for a type whose
    /// payload is left alone.
    pub fn schema(&self) -> (r: Option<Schema>)
        ensures
            r == self@.schema(),
    {
        match self {
            MsgType::Hello => Some(Schema::Hello),
            MsgType::Log => Some(Schema::Log),
            MsgType::Print => Some(Schema::Print),
            MsgType::Event => Some(Schema::Event),
            MsgType::Dropped => Some(Schema::Dropped),
            MsgType::Uplink => Some(Schema::Uplink),
            MsgType::MgmtResponse => Some(Schema::MgmtResponse),
            MsgType::RadioStat => Some(Schema::RadioStat),
            _ => None,
        }
    }
}

/// The boot banner.
#[derive(Debug, Clone, Copy)]
pub struct Hello<'a> {
    pub protocol_version: u8,
    pub firmware_name: &'a str,
    pub firmware_version: &'a str,
    pub session_id: u32,
}

/// A log record.
#[derive(Debug, Clone, Copy)]
pub struct Log<'a> {
    pub level: Level,
    pub uptime_us: u64,
    pub module: &'a str,
    pub message: &'a str,
}

/// A printed line.
#[derive(Debug, Clone, Copy)]
pub struct Print<'a> {
    pub text: &'a str,
}

/// A structured event with its named fields.
#[derive(Debug)]
pub struct Event<'a> {
    pub name: &'a str,
    pub fields: Vec<(&'a str, &'a str)>,
}

/// The count of frames that the device's writer dropped.
#[derive(Debug, Clone, Copy)]
pub struct Dropped {
    pub count: u32,
}

/// A radio uplink that the gateway forwarded.
#[derive(Debug, Clone, Copy)]
pub struct Uplink<'a> {
    pub src: u32,
    pub counter: u32,
    pub rssi: i16,
    pub lqi: u8,
    pub data: &'a [u8],
}

/// One chunk of a management reply.
#[derive(Debug, Clone, Copy)]
pub struct MgmtResponse<'a> {
    pub req_id: u16,
    pub result: u8,
    pub chunk: u16,
    pub last: bool,
    pub data: &'a [u8],
}

/// A radio-diagnostics sample.
#[derive(Debug, Clone, Copy, PartialEq, Eq, Structural)]
pub enum RadioStat {
    /// The ambient signal strength on a channel.
    Channel { channel: u32, rssi: i32 },
    /// The outcome of a transmission.
    Tx { dest: u32, item: u32, outcome: u32, ack_rssi: Option<i32> },
}

/// A command line for the console shell.
#[derive(Debug, Clone, Copy)]
pub struct ShellCommand<'a> {
    pub cmd_id: u16,
    pub line: &'a str,
}

/// A request for a management operation.
#[derive(Debug)]
pub struct MgmtRequest<O> {
    pub req_id: u16,
    pub op: O,
}

/// The payload of a message.
#[derive(Debug, Clone, Copy)]
pub struct Payload<'a> {
    pub bytes: &'a [u8],
    /// For a radio-diagnostics message, the sample that the protocol crate decodes from the bytes,
    /// if they hold one.
    pub stat: Option<RadioStat>,
}

/// The decoded fields of a payload.
#[derive(Debug)]
pub enum Record<'a> {
    Hello(Hello<'a>),
    Log(Log<'a>),
    Print(Print<'a>),
    Event(Event<'a>),
    Dropped(Dropped),
    Uplink(Uplink<'a>),
    MgmtResponse(MgmtResponse<'a>),
    RadioStat(RadioStat),
}

impl<'a> Record<'a> {
    /// The encoding that the record was decoded with.
    pub open spec fn schema(self) -> Schema {
        match self {
            Record::Hello(_) => Schema::Hello,
            Record::Log(_) => Schema::Log,
            Record::Print(_) => Schema::Print,
            Record::Event(_) => Schema::Event,
            Record::Dropped(_) => Schema::Dropped,
            Record::Uplink(_) => Schema::Uplink,
            Record::MgmtResponse(_) => Schema::MgmtResponse,
            Record::RadioStat(_) => Schema::RadioStat,
        }
    }
}

} // verus!
