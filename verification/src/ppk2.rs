//! The client side of the current-measurement sidecar: line-JSON over a pipe, one command per
//! line and one reply per line.
//!
//! - `{"cmd":"on","mv":<mV>}`: supply at `<mV>`;
//! - `{"cmd":"off"}`: cut the supply;
//! - `{"cmd":"cycle","mv":<mV>}`: power-cycle at `<mV>`;
//! - `{"cmd":"avg","ms":<ms>}`: average the current over `<ms>`, answered by `{"ua": <number>}`.

use vstd::prelude::*;

use crate::text;
use crate::text::concat_text;

verus! {

/// The largest plausible reading, in microamps. A sleeping board draws tens of microamps; a
/// reading above this is noise from a desynchronised byte stream.
pub const PPK2_SANE_MAX_UA: u32 = 50_000;

/// A connection to the sidecar, which runs as `S`.
#[derive(Debug)]
pub struct Ppk2<S> {
    pub sidecar: S,
}

/// What came of starting the sidecar.
#[derive(Debug)]
pub enum SpawnAttempt<S> {
    NotSpawned(String),
    NoStdin,
    NoStdout,
    Spawned(S),
}

/// What came of writing a command line and reading one line back.
#[derive(Debug)]
pub enum Exchange {
    NotWritten(String),
    NotFlushed(String),
    NotRead(String),
    /// The line, which is empty at the end of the stream.
    Line(String),
}

/// What came of reading the number in a reply.
#[derive(Debug)]
pub enum Reading<N> {
    /// The reply has no field, or its text is not a number.
    Unparsed,
    /// The number, whether it is above [`PPK2_SANE_MAX_UA`], and its text without decimals.
    Parsed { ua: N, above_max: bool, rounded: String },
}

/// What is to be done next when a connection is given up.
#[derive(Debug)]
pub enum Teardown {
    /// Send this command, which cuts the supply.
    Cut(String),
    /// Kill the sidecar.
    Kill,
    /// Wait for the sidecar to end, so that it does not linger.
    Reap,
    /// Nothing.
    Done,
}

/// What a [`Teardown`] stands for.
pub enum TeardownView {
    Cut(Seq<char>),
    Kill,
    Reap,
    Done,
}

impl View for Teardown {
    type V = TeardownView;

    open spec fn view(&self) -> TeardownView {
        match self {
            Teardown::Cut(command) => TeardownView::Cut(command@),
            Teardown::Kill => TeardownView::Kill,
            Teardown::Reap => TeardownView::Reap,
            Teardown::Done => TeardownView::Done,
        }
    }
}

impl TeardownView {
    /// What is to be done after this.
    pub open spec fn following(self) -> TeardownView {
        match self {
            TeardownView::Cut(_) => TeardownView::Kill,
            TeardownView::Kill => TeardownView::Reap,
            _ => TeardownView::Done,
        }
    }
}

impl Teardown {
    /// What is to be done after this, whatever came of it: a board must not stay powered nor a
    /// sidecar linger because one step failed.
    pub fn after(self, _outcome: Result<(), String>) -> (r: Teardown)
        ensures
            r@ == self@.following(),
    {
        match self {
            Teardown::Cut(_) => Teardown::Kill,
            Teardown::Kill => Teardown::Reap,
            _ => Teardown::Done,
        }
    }
}

/// What an exchange comes to: the reply without white space around it, or the reason why there
/// is none.
pub open spec fn exchange_reply(exchange: Exchange) -> Result<Seq<char>, Seq<char>> {
    match exchange {
        Exchange::NotWritten(e) => Err("HIL: ppk2d write: "@ + e@),
        Exchange::NotFlushed(e) => Err("HIL: ppk2d flush: "@ + e@),
        Exchange::NotRead(e) => Err("HIL: ppk2d read: "@ + e@),
        Exchange::Line(line) => if line@.len() == 0 {
            Err("HIL: ppk2d closed the pipe"@)
        } else {
            Ok(text::trimmed(line@))
        },
    }
}

/// A command with a number.
pub open spec fn command(head: Seq<char>, number: u32) -> Seq<char> {
    head + text::decimal(number as nat) + "}"@
}

/// The command that power-cycles the supply.
pub open spec fn cycle_command(mv: u32) -> Seq<char> {
    command("{\"cmd\":\"cycle\",\"mv\":"@, mv)
}

/// The command that enables the supply.
pub open spec fn on_command(mv: u32) -> Seq<char> {
    command("{\"cmd\":\"on\",\"mv\":"@, mv)
}

/// The command that cuts the supply.
pub open spec fn off_command() -> Seq<char> {
    "{\"cmd\":\"off\"}"@
}

/// The command that averages the current.
pub open spec fn avg_command(ms: u32) -> Seq<char> {
    command("{\"cmd\":\"avg\",\"ms\":"@, ms)
}

/// The key of the current in a reply.
pub open spec fn ua_key() -> Seq<char> {
    seq!['"', 'u', 'a', '"']
}

/// The number of the field `"ua"` as it is written: what follows the first colon after the first
/// such key and any white space, as far as it can belong to a number.
pub open spec fn ua_field(reply: Seq<char>) -> Option<Seq<char>> {
    match text::find_text_from(reply, ua_key(), 0) {
        None => None,
        Some(key) => {
            let colon = text::find_from(reply, text::CharClass::Colon, key + 4);
            if colon >= reply.len() {
                None
            } else {
                let start = text::find_from(reply, text::CharClass::Solid, colon + 1);
                let end = text::find_from(reply, text::CharClass::NotNumeric, start);
                Some(reply.subrange(start, end))
            }
        },
    }
}

/// The message for a reply without a number.
pub open spec fn bad_reply_message(reply: Seq<char>) -> Seq<char> {
    "HIL: ppk2d bad avg reply: "@ + reply
}

/// The message for an implausible reading.
pub open spec fn desync_message(rounded: Seq<char>) -> Seq<char> {
    "HIL: PPK2 reading "@ + rounded + " µA > "@ + text::decimal(PPK2_SANE_MAX_UA as nat)
        + " µA — CDC desync (do not sample mid-flash); retry after the flash settles"@
}

/// Where the sidecar's script is: in the harness's own directory.
pub fn script_path(manifest_dir: &str) -> (r: String)
    ensures
        r@ == manifest_dir@ + "/ppk2d.py"@,
{
    concat_text(manifest_dir, "/ppk2d.py")
}

/// Writes a command with a number.
fn command_text(head: &str, number: u32) -> (r: String)
    ensures
        r@ == command(head@, number),
{
    let mut r: String = head.to_owned();
    r.append(text::decimal_text(number).as_str());
    r.append("}");
    r
}

impl<S> Ppk2<S> {
    /// The connection to a sidecar that was started.
    pub fn spawn(attempt: SpawnAttempt<S>) -> (r: Result<Self, String>)
        ensures
            match attempt {
                SpawnAttempt::NotSpawned(e) => r matches Err(m) && m@ == "HIL: spawn ppk2d.py: "@
                    + e@,
                SpawnAttempt::NoStdin => r matches Err(m) && m@ == "HIL: ppk2d stdin unavailable"@,
                SpawnAttempt::NoStdout => r matches Err(m) && m@
                    == "HIL: ppk2d stdout unavailable"@,
                SpawnAttempt::Spawned(sidecar) => r == Ok::<Self, String>(Ppk2 { sidecar }),
            },
    {
        match attempt {
            SpawnAttempt::NotSpawned(e) => Err(concat_text("HIL: spawn ppk2d.py: ", e.as_str())),
            SpawnAttempt::NoStdin => Err("HIL: ppk2d stdin unavailable".to_owned()),
            SpawnAttempt::NoStdout => Err("HIL: ppk2d stdout unavailable".to_owned()),
            SpawnAttempt::Spawned(sidecar) => Ok(Ppk2 { sidecar }),
        }
    }

    /// What an exchange with the sidecar comes to.
    pub fn send(&self, exchange: Exchange) -> (r: Result<String, String>)
        ensures
            match r {
                Ok(reply) => exchange_reply(exchange) == Ok::<Seq<char>, Seq<char>>(reply@),
                Err(m) => exchange_reply(exchange) == Err::<Seq<char>, Seq<char>>(m@),
            },
    {
        match exchange {
            Exchange::NotWritten(e) => Err(concat_text("HIL: ppk2d write: ", e.as_str())),
            Exchange::NotFlushed(e) => Err(concat_text("HIL: ppk2d flush: ", e.as_str())),
            Exchange::NotRead(e) => Err(concat_text("HIL: ppk2d read: ", e.as_str())),
            Exchange::Line(line) => if line.as_str().is_empty() {
                Err("HIL: ppk2d closed the pipe".to_owned())
            } else {
                Ok(text::trim(line.as_str()).to_owned())
            },
        }
    }

    /// What a command without an answer comes to: any reply will do.
    pub fn acknowledged(&self, exchange: Exchange) -> (r: Result<(), String>)
        ensures
            match r {
                Ok(_) => exchange_reply(exchange) is Ok,
                Err(m) => exchange_reply(exchange) == Err::<Seq<char>, Seq<char>>(m@),
            },
    {
        match self.send(exchange) {
            Ok(_) => Ok(()),
            Err(m) => Err(m),
        }
    }

    /// The command that power-cycles the supply at `mv`: the preamble to any measurement, because a
    /// debug probe leaves the debug domain powered until a clean power cycle.
    pub fn cycle(&self, mv: u32) -> (r: String)
        ensures
            r@ == cycle_command(mv),
    {
        command_text("{\"cmd\":\"cycle\",\"mv\":", mv)
    }

    /// The command that enables the supply at `mv`.
    pub fn on(&self, mv: u32) -> (r: String)
        ensures
            r@ == on_command(mv),
    {
        command_text("{\"cmd\":\"on\",\"mv\":", mv)
    }

    /// The command that cuts the supply.
    pub fn off(&self) -> (r: String)
        ensures
            r@ == off_command(),
    {
        "{\"cmd\":\"off\"}".to_owned()
    }

    /// The first thing to do when the connection is given up: cutting the supply.
    pub fn teardown(&self) -> (r: Teardown)
        ensures
            r@ == TeardownView::Cut(off_command()),
    {
        Teardown::Cut(self.off())
    }

    /// The command that averages the current over `ms` milliseconds.
    pub fn avg(&self, ms: u32) -> (r: String)
        ensures
            r@ == avg_command(ms),
    {
        command_text("{\"cmd\":\"avg\",\"ms\":", ms)
    }

    /// What a measurement comes to, given the reply and what the text that [`parse_ua`] finds in
    /// it reads as: an implausible reading is an error, never a value.
    pub fn avg_ua<N>(&self, reply: &str, reading: Reading<N>) -> (r: Result<N, String>)
        ensures
            match reading {
                Reading::Parsed { ua, above_max, rounded } if ua_field(reply@) is Some => {
                    if above_max {
                        r matches Err(m) && m@ == desync_message(rounded@)
                    } else {
                        r == Ok::<N, String>(ua)
                    }
                },
                _ => r matches Err(m) && m@ == bad_reply_message(reply@),
            },
    {
        match (parse_ua(reply), reading) {
            (Some(_), Reading::Parsed { ua, above_max, rounded }) => if above_max {
                let mut m: String = "HIL: PPK2 reading ".to_owned();
                m.append(rounded.as_str());
                m.append(" µA > ");
                m.append(text::decimal_text(PPK2_SANE_MAX_UA).as_str());
                m.append(
                    " µA — CDC desync (do not sample mid-flash); retry after the flash settles",
                );
                Err(m)
            } else {
                Ok(ua)
            },
            _ => Err(concat_text("HIL: ppk2d bad avg reply: ", reply)),
        }
    }
}

/// The text of the number in the field `"ua"` of a reply.
pub fn parse_ua(reply: &str) -> (r: Option<&str>)
    ensures
        match r {
            Some(n) => ua_field(reply@) == Some(n@),
            None => ua_field(reply@) is None,
        },
{
    let chars: Vec<char> = text::chars_of(reply);
    let needle: Vec<char> = vec!['"', 'u', 'a', '"'];
    assert(needle@ =~= ua_key());
    match text::find_text(&chars, &needle, 0) {
        None => None,
        Some(key) => {
            let colon: usize = text::find_class(&chars, text::CharClass::Colon, key + 4);
            if colon >= chars.len() {
                None
            } else {
                let start: usize = text::find_class(&chars, text::CharClass::Solid, colon + 1);
                let end: usize = text::find_class(&chars, text::CharClass::NotNumeric, start);
                Some(reply.substring_char(start, end))
            }
        },
    }
}

} // verus!
