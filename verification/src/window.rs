//! Deadlines, and the operations that take frames until one passes.
//!
//! Times and lengths of time are nanoseconds; every time of one operation is read from one
//! monotonic clock. Each operation is driven by a loop: while it is open, read the console for as
//! long as its budget says, and hand over what came.

use vstd::prelude::*;

use crate::frame::{frame_mentions, Frame, FrameView};
use crate::text;

verus! {

/// The longest single read while frames are collected: 200 ms.
pub const COLLECT_SLICE: u128 = 200_000_000;

/// The longest single read while a frame is awaited: 500 ms.
pub const WAIT_SLICE: u128 = 500_000_000;

/// A span of time that ends at a deadline.
#[derive(Debug, Clone, Copy)]
pub struct Window {
    pub deadline: u128,
}

/// The time left at `now` before `deadline`.
pub open spec fn time_left(deadline: u128, now: u128) -> nat {
    if now < deadline {
        (deadline - now) as nat
    } else {
        0
    }
}

/// The lesser of two lengths of time.
pub open spec fn at_most(length: nat, cap: u128) -> nat {
    if length < cap {
        length
    } else {
        cap as nat
    }
}

impl Window {
    /// The window that starts at `now` and is `length` long.
    pub fn starting(now: u128, length: u128) -> (r: Window)
        requires
            now + length <= u128::MAX,
        ensures
            r.deadline == now + length,
    {
        Window { deadline: now + length }
    }

    /// Whether the deadline is still ahead.
    pub fn is_open(&self, now: u128) -> (r: bool)
        ensures
            r == (now < self.deadline),
    {
        now < self.deadline
    }

    /// The time left before the deadline: zero once it has passed.
    pub fn remaining(&self, now: u128) -> (r: u128)
        ensures
            r == time_left(self.deadline, now),
    {
        self.deadline.saturating_sub(now)
    }

    /// The time left before the deadline, but no more than `cap`.
    pub fn remaining_at_most(&self, now: u128, cap: u128) -> (r: u128)
        ensures
            r == at_most(time_left(self.deadline, now), cap),
    {
        let left: u128 = self.remaining(now);
        if left < cap {
            left
        } else {
            cap
        }
    }
}

/// What the frames of a list hold.
pub open spec fn frame_views(frames: Seq<Frame>) -> Seq<FrameView> {
    Seq::new(frames.len(), |i: int| frames[i]@)
}

/// Collecting every frame of a fixed window.
#[derive(Debug)]
pub struct CollectFor {
    window: Window,
    frames: Vec<Frame>,
}

/// What a [`CollectFor`] holds.
pub struct CollectView {
    pub deadline: u128,
    pub frames: Seq<FrameView>,
}

impl View for CollectFor {
    type V = CollectView;

    closed spec fn view(&self) -> CollectView {
        CollectView { deadline: self.window.deadline, frames: frame_views(self.frames@) }
    }
}

impl CollectView {
    /// The collection once a read has given `got`.
    pub open spec fn after(self, got: Option<FrameView>) -> CollectView {
        match got {
            Some(f) => CollectView { frames: self.frames.push(f), ..self },
            None => self,
        }
    }
}

impl CollectFor {
    /// Starts to collect at `now`, for `length`.
    pub fn starting(now: u128, length: u128) -> (r: CollectFor)
        requires
            now + length <= u128::MAX,
        ensures
            r@ == (CollectView { deadline: (now + length) as u128, frames: Seq::empty() }),
    {
        let r: CollectFor = CollectFor {
            window: Window::starting(now, length),
            frames: Vec::new(),
        };
        assert(r@.frames =~= Seq::empty());
        r
    }

    /// Whether to read on.
    pub fn is_open(&self, now: u128) -> (r: bool)
        ensures
            r == (now < self@.deadline),
    {
        self.window.is_open(now)
    }

    /// How long the next read may take.
    pub fn budget(&self, now: u128) -> (r: u128)
        ensures
            r == at_most(time_left(self@.deadline, now), COLLECT_SLICE),
    {
        self.window.remaining_at_most(now, COLLECT_SLICE)
    }

    /// Takes what a read gave.
    pub fn on_frame(&mut self, got: Option<Frame>)
        ensures
            final(self)@ == old(self)@.after(
                match got {
                    Some(f) => Some(f@),
                    None => None,
                },
            ),
    {
        match got {
            Some(f) => {
                self.frames.push(f);
                assert(self@.frames =~= old(self)@.frames.push(f@));
            },
            None => {},
        }
    }

    /// The collected frames, in the order in which they came.
    pub fn finish(self) -> (r: Vec<Frame>)
        ensures
            frame_views(r@) == self@.frames,
    {
        self.frames
    }
}

/// What a wait ends with when a read has given `got` and the predicate has answered `accepted`.
pub open spec fn wait_step<F>(got: Option<F>, accepted: bool) -> Option<F> {
    if accepted {
        got
    } else {
        None
    }
}

/// Whether what a read gave is a frame that mentions `needle`.
pub open spec fn got_mentions(got: Option<FrameView>, needle: Seq<char>) -> bool {
    got matches Some(f) && f.mentions(needle)
}

/// Waiting for a frame that a predicate accepts.
#[derive(Debug, Clone, Copy)]
pub struct WaitFor {
    pub window: Window,
}

impl WaitFor {
    /// Starts to wait at `now`, for no longer than `timeout`.
    pub fn starting(now: u128, timeout: u128) -> (r: WaitFor)
        requires
            now + timeout <= u128::MAX,
        ensures
            r.window.deadline == now + timeout,
    {
        WaitFor { window: Window::starting(now, timeout) }
    }

    /// Whether to read on.
    pub fn is_open(&self, now: u128) -> (r: bool)
        ensures
            r == (now < self.window.deadline),
    {
        self.window.is_open(now)
    }

    /// How long the next read may take.
    pub fn budget(&self, now: u128) -> (r: u128)
        ensures
            r == at_most(time_left(self.window.deadline, now), WAIT_SLICE),
    {
        self.window.remaining_at_most(now, WAIT_SLICE)
    }

    /// The frame that ends the wait: the one that was read, where there was one and `accepted`,
    /// the predicate's answer on it, is true.
    pub fn on_frame(&self, got: Option<Frame>, accepted: bool) -> (r: Option<Frame>)
        ensures
            r == wait_step(got, accepted),
    {
        if accepted {
            got
        } else {
            None
        }
    }
}

/// Waiting for a log or print frame with a given text in it.
#[derive(Debug)]
pub struct WaitForText {
    pub wait: WaitFor,
    pub needle: String,
}

impl WaitForText {
    /// Starts to wait at `now`, for no longer than `timeout`, for a text that contains `needle`.
    pub fn starting(now: u128, timeout: u128, needle: &str) -> (r: WaitForText)
        requires
            now + timeout <= u128::MAX,
        ensures
            r.wait.window.deadline == now + timeout,
            r.needle@ == needle@,
    {
        WaitForText { wait: WaitFor::starting(now, timeout), needle: needle.to_owned() }
    }

    /// Whether what a read gave ends the wait.
    pub fn on_frame(&self, got: Option<Frame>) -> (r: bool)
        ensures
            r == got_mentions(
                match got {
                    Some(f) => Some(f@),
                    None => None,
                },
                self.needle@,
            ),
    {
        match got {
            Some(f) => {
                let accepted: bool = frame_mentions(&f, self.needle.as_str());
                self.wait.on_frame(Some(f), accepted).is_some()
            },
            None => false,
        }
    }
}

/// One management exchange: the chunks of the reply to one request, put together.
#[derive(Debug)]
pub struct MgmtRoundtrip {
    req_id: u16,
    timeout: u128,
    window: Window,
    data: Vec<u8>,
}

/// What a [`MgmtRoundtrip`] holds.
pub struct MgmtView {
    pub req_id: u16,
    pub timeout: u128,
    pub deadline: u128,
    pub data: Seq<u8>,
}

/// What to do once a read has been handed over.
#[derive(Debug)]
pub enum MgmtStep {
    /// The reply is not complete: read on.
    Wait(MgmtRoundtrip),
    /// The reply is complete.
    Reply { result: u8, data: Vec<u8> },
    /// There is no complete reply.
    NoReply(String),
}

/// What a [`MgmtStep`] says.
pub enum MgmtStepView {
    Wait(MgmtView),
    Reply { result: u8, data: Seq<u8> },
    NoReply(Seq<char>),
}

impl View for MgmtRoundtrip {
    type V = MgmtView;

    closed spec fn view(&self) -> MgmtView {
        MgmtView {
            req_id: self.req_id,
            timeout: self.timeout,
            deadline: self.window.deadline,
            data: self.data@,
        }
    }
}

impl View for MgmtStep {
    type V = MgmtStepView;

    open spec fn view(&self) -> MgmtStepView {
        match self {
            MgmtStep::Wait(m) => MgmtStepView::Wait(m@),
            MgmtStep::Reply { result, data } => MgmtStepView::Reply {
                result: *result,
                data: data@,
            },
            MgmtStep::NoReply(message) => MgmtStepView::NoReply(message@),
        }
    }
}

/// The message of a request that was not answered completely.
pub open spec fn no_reply_message(req_id: u16) -> Seq<char> {
    "HIL: mgmt req "@ + text::decimal(req_id as nat) + " got no complete reply"@
}

impl MgmtView {
    /// Whether a read gave a chunk of the reply that is awaited.
    pub open spec fn answered_by(self, got: Option<FrameView>) -> bool {
        got matches Some(FrameView::Mgmt { req_id, .. }) && req_id == self.req_id
    }

    /// What follows when a read at `now` has given `got`: a chunk of this reply is appended and
    /// starts the timeout anew, and the last one completes the reply; any other frame is ignored;
    /// no frame ends the exchange.
    pub open spec fn after(self, got: Option<FrameView>, now: u128) -> MgmtStepView {
        match got {
            Some(FrameView::Mgmt { req_id, result, last, data, .. }) if req_id == self.req_id => {
                if last {
                    MgmtStepView::Reply { result, data: self.data + data }
                } else {
                    MgmtStepView::Wait(
                        MgmtView {
                            deadline: (now + self.timeout) as u128,
                            data: self.data + data,
                            ..self
                        },
                    )
                }
            },
            Some(_) => MgmtStepView::Wait(self),
            None => MgmtStepView::NoReply(no_reply_message(self.req_id)),
        }
    }
}

impl MgmtRoundtrip {
    /// Starts to await, at `now`, the reply to request `req_id`. `timeout` bounds the time between
    /// two chunks of it.
    pub fn starting(req_id: u16, now: u128, timeout: u128) -> (r: MgmtRoundtrip)
        requires
            now + timeout <= u128::MAX,
        ensures
            r@ == (MgmtView {
                req_id,
                timeout,
                deadline: (now + timeout) as u128,
                data: Seq::empty(),
            }),
    {
        MgmtRoundtrip { req_id, timeout, window: Window::starting(now, timeout), data: Vec::new() }
    }

    /// Whether to read on.
    pub fn is_open(&self, now: u128) -> (r: bool)
        ensures
            r == (now < self@.deadline),
    {
        self.window.is_open(now)
    }

    /// How long the next read may take.
    pub fn budget(&self, now: u128) -> (r: u128)
        ensures
            r == time_left(self@.deadline, now),
    {
        self.window.remaining(now)
    }

    /// The message for a reply that did not complete in time.
    pub fn expire(&self) -> (r: String)
        ensures
            r@ == no_reply_message(self@.req_id),
    {
        let mut r: String = "HIL: mgmt req ".to_owned();
        r.append(text::decimal_text(self.req_id as u32).as_str());
        r.append(" got no complete reply");
        r
    }

    /// Takes what a read gave at `now`.
    pub fn on_frame(self, got: Option<Frame>, now: u128) -> (r: MgmtStep)
        requires
            got matches Some(f) && self@.answered_by(Some(f@)) ==> now + self@.timeout
                <= u128::MAX,
        ensures
            r@ == self@.after(
                match got {
                    Some(f) => Some(f@),
                    None => None,
                },
                now,
            ),
    {
        match got {
            Some(Frame::Mgmt { req_id, result, last, data, .. }) if req_id == self.req_id => {
                let mut all: Vec<u8> = self.data;
                let mut chunk: Vec<u8> = data;
                all.append(&mut chunk);
                if last {
                    MgmtStep::Reply { result, data: all }
                } else {
                    MgmtStep::Wait(
                        MgmtRoundtrip {
                            req_id: self.req_id,
                            timeout: self.timeout,
                            window: Window::starting(now, self.timeout),
                            data: all,
                        },
                    )
                }
            },
            Some(_) => MgmtStep::Wait(self),
            None => MgmtStep::NoReply(self.expire()),
        }
    }
}

} // verus!
