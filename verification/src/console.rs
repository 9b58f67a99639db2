//! The framed console: who holds the serial port, which frames went missing, what is sent.

use vstd::prelude::*;

use crate::frame::{message_frame, to_frame, Frame, FrameView};
use crate::msg::{MgmtRequest, MsgType, MsgTypeView, Payload, Protocol, ShellCommand};
use crate::text::{concat_text, failure, failure_text};
use crate::window::{CollectFor, CollectView, MgmtRoundtrip, MgmtView, WaitFor, WaitForText, Window};

verus! {

/// The baud rate of the framed console (8 data bits, no parity, 1 stop bit).
pub const CONSOLE_BAUD: u32 = 115_200;

/// How long one read of the serial port blocks: 50 ms.
pub const READ_POLL: u128 = 50_000_000;

/// The framed console over one serial port of type `P`, with a byte decoder of type `D` that finds
/// the frames in what the port gives.
///
/// Every decoded frame carries a 16-bit sequence number. The console counts the numbers that the
/// device advanced past without the frame arriving.
#[derive(Debug)]
pub struct Console<P, D> {
    port: Option<P>,
    decoder: D,
    last_seq: Option<u16>,
    seq_gaps: u32,
    tx_seq: u16,
}

/// What a [`Console`] holds.
pub struct ConsoleView<P, D> {
    /// The port; `None` while it is loaned out.
    pub port: Option<P>,
    /// The byte decoder, with what it holds of a frame that is not complete.
    pub decoder: D,
    /// The sequence number of the latest frame, if there was one since the last resync.
    pub last_seq: Option<u16>,
    /// The frames missed so far.
    pub seq_gaps: u32,
    /// The sequence number of the next frame to send.
    pub tx_seq: u16,
}

impl<P, D> View for Console<P, D> {
    type V = ConsoleView<P, D>;

    closed spec fn view(&self) -> ConsoleView<P, D> {
        ConsoleView {
            port: self.port,
            decoder: self.decoder,
            last_seq: self.last_seq,
            seq_gaps: self.seq_gaps,
            tx_seq: self.tx_seq,
        }
    }
}

/// How many frames lie between `prev` and `seq`, on the circle of 16-bit numbers.
pub open spec fn skipped(prev: u16, seq: u16) -> nat {
    ((seq - prev - 1) % 0x1_0000) as nat
}

/// `gaps` and `more` together, as far as the counter reaches.
pub open spec fn saturated(gaps: u32, more: nat) -> u32 {
    if gaps + more > u32::MAX {
        u32::MAX
    } else {
        (gaps + more) as u32
    }
}

/// The sequence number after `seq`.
pub open spec fn successor(seq: u16) -> u16 {
    if seq == u16::MAX {
        0
    } else {
        (seq + 1) as u16
    }
}

impl<P, D> ConsoleView<P, D> {
    /// A console on `port` that has neither sent nor received.
    pub open spec fn fresh(port: Option<P>, decoder: D) -> Self {
        ConsoleView { port, decoder, last_seq: None, seq_gaps: 0, tx_seq: 0 }
    }

    /// The console once a frame numbered `seq` has arrived: the first one is the baseline, every
    /// later one adds the frames between it and its predecessor.
    pub open spec fn accounted(self, seq: u16) -> Self {
        ConsoleView {
            last_seq: Some(seq),
            seq_gaps: match self.last_seq {
                Some(prev) => saturated(self.seq_gaps, skipped(prev, seq)),
                None => self.seq_gaps,
            },
            ..self
        }
    }

    /// The console once a read has given `event`: only a message changes it, by its number.
    pub open spec fn after_read(self, event: ReadEvent<'_>) -> Self {
        match event {
            ReadEvent::Message { seq, .. } => self.accounted(seq),
            _ => self,
        }
    }

    /// The console once its sequence baseline has been dropped and it has a new decoder.
    pub open spec fn resynced(self, decoder: D) -> Self {
        ConsoleView { decoder, last_seq: None, ..self }
    }

    /// The console once its decoder has become `decoder`.
    pub open spec fn decoding(self, decoder: D) -> Self {
        ConsoleView { decoder, ..self }
    }

    /// The console once a frame has been encoded, where that succeeded, with its sequence number.
    pub open spec fn encoded(self, success: bool) -> Self {
        if success {
            ConsoleView { tx_seq: successor(self.tx_seq), ..self }
        } else {
            self
        }
    }

    /// The console while its port is loaned out.
    pub open spec fn loaned(self) -> Self {
        ConsoleView { port: None, ..self }
    }

    /// The console with `port` attached.
    pub open spec fn attached(self, port: P) -> Self {
        ConsoleView { port: Some(port), ..self }
    }
}

/// What came of opening a serial port.
#[derive(Debug)]
pub enum OpenAttempt<P> {
    /// The port did not open.
    NotOpened(String),
    /// The port opened, but its exclusive mode could not be cleared.
    NotShared(String),
    /// The port is open and can be shared.
    Opened(P),
}

/// What came of one read of the serial port, one byte at most, and of feeding that byte to the
/// frame decoder.
#[derive(Debug)]
pub enum ReadEvent<'a> {
    /// No byte.
    Nothing,
    /// No byte within the port's read timeout.
    TimedOut,
    /// A byte that completes no frame.
    Pending,
    /// A byte that ends a frame whose checksum or version is wrong.
    Corrupt,
    /// A byte that completes a message.
    Message { msg_type: MsgType, seq: u16, payload: Payload<'a> },
    /// The read failed.
    Failed(String),
}

/// What one read comes to for the call of [`Console::next`] that made it.
pub enum ReadOutcome {
    /// The call ends with this frame.
    Frame(FrameView),
    /// The call reads on.
    ReadOn,
    /// The call fails with this message.
    Error(Seq<char>),
}

/// What a read that gave `event` comes to: a message is a frame, a failed read is an error, and
/// after anything else the call reads on.
pub open spec fn read_outcome(event: ReadEvent<'_>, protocol: Protocol) -> ReadOutcome {
    match event {
        ReadEvent::Message { msg_type, payload, .. } => ReadOutcome::Frame(
            message_frame(msg_type@, payload, protocol),
        ),
        ReadEvent::Failed(e) => ReadOutcome::Error("HIL: console read error: "@ + e@),
        _ => ReadOutcome::ReadOn,
    }
}

/// What came of writing an encoded frame to the port.
#[derive(Debug)]
pub enum WriteOutcome {
    NotWritten(String),
    NotFlushed(String),
    Sent,
}

/// Why a port that is loaned out cannot be used.
pub open spec fn loaned_out() -> Seq<char> {
    "HIL: console handle loaned out"@
}

/// Why a port that is loaned out cannot be loaned again.
pub open spec fn already_loaned() -> Seq<char> {
    "HIL: console handle already loaned"@
}

impl<P, D> Console<P, D> {
    /// The console on a port that was asked for as `path`, with a new decoder.
    pub fn open(path: &str, attempt: OpenAttempt<P>, decoder: D) -> (r: Result<Self, String>)
        ensures
            match attempt {
                OpenAttempt::NotOpened(e) => r matches Err(m) && m@ == failure(
                    "HIL: open console "@,
                    path@,
                    e@,
                ),
                OpenAttempt::NotShared(e) => r matches Err(m) && m@ == failure(
                    "HIL: clear TIOCEXCL on "@,
                    path@,
                    e@,
                ),
                OpenAttempt::Opened(port) => r matches Ok(c) && c@ == ConsoleView::fresh(
                    Some(port),
                    decoder,
                ),
            },
    {
        match attempt {
            OpenAttempt::NotOpened(e) => Err(failure_text("HIL: open console ", path, e.as_str())),
            OpenAttempt::NotShared(e) => Err(
                failure_text("HIL: clear TIOCEXCL on ", path, e.as_str()),
            ),
            OpenAttempt::Opened(port) => Ok(
                Console { port: Some(port), decoder, last_seq: None, seq_gaps: 0, tx_seq: 0 },
            ),
        }
    }

    /// A console with no port, whose accounting can be used without one.
    pub fn for_test(decoder: D) -> (r: Self)
        ensures
            r@ == ConsoleView::<P, D>::fresh(None, decoder),
    {
        Console { port: None, decoder, last_seq: None, seq_gaps: 0, tx_seq: 0 }
    }

    /// The port, unless it is loaned out.
    pub fn port_mut(&mut self) -> (r: Result<&mut P, String>)
        ensures
            match r {
                Ok(p) => old(self)@.port == Some(*p) && final(self)@ == old(self)@.attached(
                    *final(p),
                ),
                Err(m) => old(self)@.port is None && m@ == loaned_out() && final(self)@ == old(
                    self,
                )@,
            },
    {
        match &mut self.port {
            Some(p) => Ok(p),
            None => Err("HIL: console handle loaned out".to_owned()),
        }
    }

    /// The decoder, to feed the bytes of the port to. It keeps what it holds of a frame from one
    /// call of [`Console::next`] to the next.
    pub fn decoder_mut(&mut self) -> (r: &mut D)
        ensures
            *r == old(self)@.decoder,
            final(self)@ == old(self)@.decoding(*final(r)),
    {
        &mut self.decoder
    }

    /// The sequence number to encode the next outgoing frame with. Each link counts its own, from
    /// zero.
    pub fn tx_seq(&self) -> (r: u16)
        ensures
            r == self@.tx_seq,
    {
        self.tx_seq
    }

    /// Takes what came of encoding a frame of type `msg_type` with [`Console::tx_seq`], and gives
    /// the port to write it to and its bytes. An encoded frame uses up its sequence number, also
    /// where it cannot be written.
    pub fn send_frame(&mut self, msg_type: &MsgType, encoded: Result<Vec<u8>, String>) -> (r:
        Result<(&mut P, Vec<u8>), String>)
        ensures
            match encoded {
                Err(e) => r matches Err(m) && m@ == failure(
                    "HIL: encode "@,
                    msg_type@.name(),
                    e@,
                ) && final(self)@ == old(self)@.encoded(false),
                Ok(bytes) => match r {
                    Ok((p, b)) => old(self)@.port == Some(*p) && b == bytes && final(self)@ == old(
                        self,
                    )@.encoded(true).attached(*final(p)),
                    Err(m) => old(self)@.port is None && m@ == loaned_out() && final(self)@ == old(
                        self,
                    )@.encoded(true),
                },
            },
    {
        match encoded {
            Err(e) => Err(failure_text("HIL: encode ", msg_type.name(), e.as_str())),
            Ok(bytes) => {
                self.tx_seq = self.tx_seq.wrapping_add(1);
                match self.port_mut() {
                    Ok(p) => Ok((p, bytes)),
                    Err(m) => Err(m),
                }
            },
        }
    }

    /// What sending a frame comes to once it has been written.
    pub fn frame_sent(&self, outcome: WriteOutcome) -> (r: Result<(), String>)
        ensures
            match outcome {
                WriteOutcome::NotWritten(e) => r matches Err(m) && m@ == "HIL: write: "@ + e@,
                WriteOutcome::NotFlushed(e) => r matches Err(m) && m@ == "HIL: flush: "@ + e@,
                WriteOutcome::Sent => r is Ok,
            },
    {
        match outcome {
            WriteOutcome::NotWritten(e) => Err(concat_text("HIL: write: ", e.as_str())),
            WriteOutcome::NotFlushed(e) => Err(concat_text("HIL: flush: ", e.as_str())),
            WriteOutcome::Sent => Ok(()),
        }
    }

    /// The message that runs `line` in the console shell.
    pub fn send_shell<'a>(&self, cmd_id: u16, line: &'a str) -> (r: (MsgType, ShellCommand<'a>))
        ensures
            r.0@ == MsgTypeView::ShellCommand,
            r.1.cmd_id == cmd_id,
            r.1.line == line,
    {
        (MsgType::ShellCommand, ShellCommand { cmd_id, line })
    }

    /// The message that asks for management operation `op` under the number `req_id`.
    pub fn mgmt_request<O>(&self, req_id: u16, op: O) -> (r: (MsgType, MgmtRequest<O>))
        ensures
            r.0@ == MsgTypeView::MgmtRequest,
            r.1.req_id == req_id,
            r.1.op == op,
    {
        (MsgType::MgmtRequest, MgmtRequest { req_id, op })
    }

    /// Starts to await the reply to management request `req_id` (see
    /// [`Console::mgmt_request`]), sent at `now`. `timeout` is an idle limit: each chunk of the
    /// reply starts it anew.
    pub fn mgmt_roundtrip(&self, req_id: u16, now: u128, timeout: u128) -> (r: MgmtRoundtrip)
        requires
            now + timeout <= u128::MAX,
        ensures
            r@ == (MgmtView {
                req_id,
                timeout,
                deadline: (now + timeout) as u128,
                data: Seq::empty(),
            }),
    {
        MgmtRoundtrip::starting(req_id, now, timeout)
    }

    /// Loans the port out, for the pulse that reboots the board into its application.
    pub fn reset_into_app(&mut self) -> (r: Result<P, String>)
        ensures
            match old(self)@.port {
                Some(p) => r == Ok::<P, String>(p) && final(self)@ == old(self)@.loaned(),
                None => r matches Err(m) && m@ == already_loaned() && final(self)@ == old(self)@,
            },
    {
        match self.port.take() {
            Some(p) => Ok(p),
            None => Err("HIL: console handle already loaned".to_owned()),
        }
    }

    /// Takes the loaned port back, whatever came of the reset.
    pub fn after_reset(&mut self, port: P, outcome: Result<(), String>) -> (r: Result<(), String>)
        ensures
            final(self)@ == old(self)@.attached(port),
            match outcome {
                Ok(_) => r is Ok,
                Err(e) => r matches Err(m) && m@ == "HIL: reset-into-app: "@ + e@,
            },
    {
        self.port = Some(port);
        match outcome {
            Ok(_) => Ok(()),
            Err(e) => Err(concat_text("HIL: reset-into-app: ", e.as_str())),
        }
    }

    /// The frames that the device advanced its sequence number past and that never arrived.
    pub fn seq_gaps(&self) -> (r: u32)
        ensures
            r == self@.seq_gaps,
    {
        self.seq_gaps
    }

    /// Discards any partial frame, with the decoder that holds it, and drops the sequence baseline,
    /// as after a device reset: the next frame sets it anew.
    pub fn resync(&mut self, decoder: D)
        ensures
            final(self)@ == old(self)@.resynced(decoder),
    {
        self.decoder = decoder;
        self.last_seq = None;
    }

    /// Accounts for an arrived frame.
    pub fn account_seq(&mut self, seq: u16)
        ensures
            final(self)@ == old(self)@.accounted(seq),
    {
        if let Some(prev) = self.last_seq {
            let gap: u16 = seq.wrapping_sub(prev).wrapping_sub(1);
            assert(gap == skipped(prev, seq));
            self.seq_gaps = self.seq_gaps.saturating_add(gap as u32);
        }
        self.last_seq = Some(seq);
    }

    /// Starts to read one frame at `now`, for no longer than `timeout`; fails while the port is
    /// loaned out. The read ends without a frame once the window closes.
    pub fn next(&self, now: u128, timeout: u128) -> (r: Result<Window, String>)
        requires
            now + timeout <= u128::MAX,
        ensures
            match r {
                Ok(w) => self@.port is Some && w.deadline == now + timeout,
                Err(m) => self@.port is None && m@ == loaned_out(),
            },
    {
        let window: Window = Window::starting(now, timeout);
        match &self.port {
            Some(_) => Ok(window),
            None => Err("HIL: console handle loaned out".to_owned()),
        }
    }

    /// Takes what one read gave. `Ok(Some(..))` is the frame that ends [`Console::next`], `Err`
    /// its failure; on `Ok(None)` the caller reads on. A message is accounted for whether or not
    /// it is modelled; a corrupt frame is skipped, and the next delimiter resynchronises.
    pub fn on_read(&mut self, protocol: &Protocol, event: ReadEvent<'_>) -> (r: Result<
        Option<Frame>,
        String,
    >)
        ensures
            final(self)@ == old(self)@.after_read(event),
            match read_outcome(event, *protocol) {
                ReadOutcome::Frame(frame) => r matches Ok(Some(f)) && f@ == frame,
                ReadOutcome::ReadOn => r == Ok::<Option<Frame>, String>(None),
                ReadOutcome::Error(message) => r matches Err(m) && m@ == message,
            },
    {
        match event {
            ReadEvent::Message { msg_type, seq, payload } => {
                let frame: Frame = to_frame(msg_type, payload, protocol);
                self.account_seq(seq);
                Ok(Some(frame))
            },
            ReadEvent::Failed(e) => Err(concat_text("HIL: console read error: ", e.as_str())),
            _ => Ok(None),
        }
    }

    /// Starts to collect, at `now`, every frame of the next `window`.
    pub fn collect_for(&self, now: u128, window: u128) -> (r: CollectFor)
        requires
            now + window <= u128::MAX,
        ensures
            r@ == (CollectView { deadline: (now + window) as u128, frames: Seq::empty() }),
    {
        CollectFor::starting(now, window)
    }

    /// Starts to wait, at `now` and for no longer than `timeout`, for a frame that a predicate
    /// accepts (see [`WaitFor::on_frame`]).
    pub fn wait_for(&self, now: u128, timeout: u128) -> (r: WaitFor)
        requires
            now + timeout <= u128::MAX,
        ensures
            r.window.deadline == now + timeout,
    {
        WaitFor::starting(now, timeout)
    }

    /// Starts to wait, at `now` and for no longer than `timeout`, for a log or print frame whose
    /// text contains `needle`.
    pub fn wait_for_text(&self, now: u128, timeout: u128, needle: &str) -> (r: WaitForText)
        requires
            now + timeout <= u128::MAX,
        ensures
            r.wait.window.deadline == now + timeout,
            r.needle@ == needle@,
    {
        WaitForText::starting(now, timeout, needle)
    }
}

/// What came of resetting a board over a port that was opened for it.
#[derive(Debug)]
pub enum ResetOutcome {
    NotOpened(String),
    NotReset(String),
    Reset,
}

/// What rebooting the board on port `path` into its application comes to.
pub fn reset_into_app(path: &str, outcome: ResetOutcome) -> (r: Result<(), String>)
    ensures
        match outcome {
            ResetOutcome::NotOpened(e) => r matches Err(m) && m@ == failure(
                "HIL: jolt open "@,
                path@,
                e@,
            ),
            ResetOutcome::NotReset(e) => r matches Err(m) && m@ == failure(
                "HIL: reset-into-app "@,
                path@,
                e@,
            ),
            ResetOutcome::Reset => r is Ok,
        },
{
    match outcome {
        ResetOutcome::NotOpened(e) => Err(failure_text("HIL: jolt open ", path, e.as_str())),
        ResetOutcome::NotReset(e) => Err(failure_text("HIL: reset-into-app ", path, e.as_str())),
        ResetOutcome::Reset => Ok(()),
    }
}

} // verus!
