//! The sending half of the protocol: stop and wait.
//!
//! A [`Sender`] has at most one message in flight. It is driven by three
//! kinds of event, each stamped with the reading of a millisecond clock that
//! never runs backwards:
//!
//! * a frame is submitted ([`Sender::submit`]);
//! * a datagram came in while waiting ([`Sender::on_reply`]);
//! * time has passed ([`Sender::on_tick`]).
//!
//! To each event the sender answers with a [`Step`] that says what to do
//! next. What it answers is fixed by [`SenderState::step`], a function of
//! the state and the event alone.
//!
//! A transmission opens a wait window of the configured length. Only the
//! acknowledgment of the outstanding sequence id ends the wait early. Any
//! other datagram leaves the window as it is. When the window has closed the
//! frame is sent again, byte for byte, in a fresh window, until the
//! configured number of retransmissions is used up; then the message has
//! failed and the sender is free for the next one.

use crate::events::{Component, EventKind, LogRecord};
use vstd::prelude::*;
use vstd::slice::slice_to_vec;

verus! {

/// The sum of two clock values, or the largest value if the sum is beyond
/// it.
pub open spec fn saturating_sum(a: u64, b: u64) -> u64 {
    if a + b > u64::MAX {
        u64::MAX
    } else {
        (a + b) as u64
    }
}

/// The settings of a sender.
#[derive(Clone, Copy, Debug, PartialEq, Eq, Structural)]
pub struct SenderConfig {
    /// The length of a wait window in milliseconds.
    pub timeout_ms: u64,
    /// How many times a frame is sent again before the message fails.
    pub max_retries: u32,
}

impl SenderConfig {
    /// Settings with the wait window given in seconds. A window too long
    /// to count in milliseconds is taken as the longest that can be.
    pub fn from_secs(timeout_secs: u64, max_retries: u32) -> (config: SenderConfig)
        ensures
            config.max_retries == max_retries,
            config.timeout_ms == if timeout_secs * 1000 > u64::MAX {
                u64::MAX
            } else {
                (timeout_secs * 1000) as u64
            },
    {
        let timeout_ms = if timeout_secs > u64::MAX / 1000 {
            u64::MAX
        } else {
            timeout_secs * 1000
        };
        SenderConfig { timeout_ms, max_retries }
    }
}

/// Why a submitted frame was not taken.
#[derive(Clone, Copy, Debug, PartialEq, Eq, Structural)]
pub enum Refusal {
    /// Another message is still in flight.
    Busy,
    /// Every sequence id has been used.
    Exhausted,
}

/// The message in flight, as a mathematical value.
pub struct Pending {
    pub seq: u64,
    pub frame: Seq<u8>,
    /// How many times the frame has been sent again.
    pub retries: u32,
    /// The clock value at which the current wait window closes.
    pub deadline_ms: u64,
}

/// A sender, as a mathematical value.
pub struct SenderState {
    pub config: SenderConfig,
    /// The sequence id given out last, or zero if none has been.
    pub issued: u64,
    pub pending: Option<Pending>,
}

/// What drives a sender.
pub enum Event {
    /// A frame is handed in for sending.
    Submit { frame: Seq<u8>, now_ms: u64 },
    /// A datagram came in. `ack` is the sequence id it acknowledges, or
    /// `None` if it could not be decoded.
    Reply { ack: Option<u64>, now_ms: u64 },
    /// The clock is read.
    Tick { now_ms: u64 },
}

/// What a sender answers, as a mathematical value. See [`Step`].
pub enum Outcome {
    Refused { why: Refusal },
    Transmit { seq: u64, frame: Seq<u8>, retry: u32, wait_ms: u64 },
    Wait { remaining_ms: u64 },
    Acked { seq: u64 },
    Failed { seq: u64 },
    Idle,
}

impl SenderState {
    /// The state of a sender that has sent nothing yet.
    pub open spec fn initial(config: SenderConfig) -> SenderState {
        SenderState { config, issued: 0, pending: None }
    }

    /// Whether the state is one that a sender can be in: the message in
    /// flight carries the sequence id given out last, and has not been sent
    /// again more often than allowed.
    pub open spec fn wf(self) -> bool {
        self.pending matches Some(p) ==> {
            &&& p.seq == self.issued
            &&& p.seq >= 1
            &&& p.retries <= self.config.max_retries
        }
    }

    /// A frame is submitted: refused while a message is in flight or when
    /// the sequence ids are used up; else given the next sequence id and
    /// transmitted in a first wait window.
    pub open spec fn submit(self, frame: Seq<u8>, now_ms: u64) -> (SenderState, Outcome) {
        if self.pending is Some {
            (self, Outcome::Refused { why: Refusal::Busy })
        } else if self.issued == u64::MAX {
            (self, Outcome::Refused { why: Refusal::Exhausted })
        } else {
            let seq = (self.issued + 1) as u64;
            let pending = Pending {
                seq,
                frame,
                retries: 0,
                deadline_ms: saturating_sum(now_ms, self.config.timeout_ms),
            };
            (
                SenderState { config: self.config, issued: seq, pending: Some(pending) },
                Outcome::Transmit { seq, frame, retry: 0, wait_ms: self.config.timeout_ms },
            )
        }
    }

    /// The wait window of `p` has closed at `now_ms`: the frame is sent
    /// again in a fresh window if a retransmission is left, else the message
    /// has failed.
    pub open spec fn expire(self, p: Pending, now_ms: u64) -> (SenderState, Outcome) {
        if p.retries < self.config.max_retries {
            let retry = (p.retries + 1) as u32;
            let pending = Pending {
                seq: p.seq,
                frame: p.frame,
                retries: retry,
                deadline_ms: saturating_sum(now_ms, self.config.timeout_ms),
            };
            (
                SenderState { config: self.config, issued: self.issued, pending: Some(pending) },
                Outcome::Transmit {
                    seq: p.seq,
                    frame: p.frame,
                    retry,
                    wait_ms: self.config.timeout_ms,
                },
            )
        } else {
            (
                SenderState { config: self.config, issued: self.issued, pending: None },
                Outcome::Failed { seq: p.seq },
            )
        }
    }

    /// No acknowledgment of the message in flight has come by `now_ms`: the
    /// wait goes on to the end of its window, and the window is neither
    /// stretched nor cut; at its end it expires.
    pub open spec fn unanswered(self, p: Pending, now_ms: u64) -> (SenderState, Outcome) {
        if now_ms < p.deadline_ms {
            (self, Outcome::Wait { remaining_ms: (p.deadline_ms - now_ms) as u64 })
        } else {
            self.expire(p, now_ms)
        }
    }

    /// A datagram came in: the acknowledgment of the message in flight ends
    /// the wait with success; anything else counts for nothing.
    pub open spec fn reply(self, ack: Option<u64>, now_ms: u64) -> (SenderState, Outcome) {
        match self.pending {
            None => (self, Outcome::Idle),
            Some(p) => if ack == Some(p.seq) {
                (
                    SenderState { config: self.config, issued: self.issued, pending: None },
                    Outcome::Acked { seq: p.seq },
                )
            } else {
                self.unanswered(p, now_ms)
            },
        }
    }

    /// The clock is read.
    pub open spec fn tick(self, now_ms: u64) -> (SenderState, Outcome) {
        match self.pending {
            None => (self, Outcome::Idle),
            Some(p) => self.unanswered(p, now_ms),
        }
    }

    /// The state after an event, and the answer to it.
    pub open spec fn step(self, event: Event) -> (SenderState, Outcome) {
        match event {
            Event::Submit { frame, now_ms } => self.submit(frame, now_ms),
            Event::Reply { ack, now_ms } => self.reply(ack, now_ms),
            Event::Tick { now_ms } => self.tick(now_ms),
        }
    }
}

impl Outcome {
    /// The event that the sender reports with this answer, if any: `send`
    /// with a first transmission, `resend` with a later one, `ack_recv` with
    /// success.
    pub open spec fn log_record(self) -> Option<LogRecord> {
        match self {
            Outcome::Transmit { seq, retry, .. } => Some(
                LogRecord {
                    component: Component::Client,
                    kind: if retry == 0 {
                        EventKind::Send
                    } else {
                        EventKind::Resend
                    },
                    seq,
                },
            ),
            Outcome::Acked { seq } => Some(
                LogRecord { component: Component::Client, kind: EventKind::AckRecv, seq },
            ),
            _ => None,
        }
    }
}

/// What to do next.
#[derive(Debug)]
pub enum Step {
    /// The frame was not taken.
    Refused { why: Refusal },
    /// Send `frame`, which is the message `seq`, then wait up to `wait_ms`
    /// milliseconds for its acknowledgment. `retry` counts the
    /// retransmissions: zero for the first sending.
    Transmit { seq: u64, frame: Vec<u8>, retry: u32, wait_ms: u64 },
    /// Go on waiting, `remaining_ms` milliseconds at most.
    Wait { remaining_ms: u64 },
    /// The message `seq` was acknowledged. The sender is free.
    Acked { seq: u64 },
    /// The message `seq` was given up. The sender is free.
    Failed { seq: u64 },
    /// Nothing is in flight, and nothing is to be done.
    Idle,
}

impl View for Step {
    type V = Outcome;

    open spec fn view(&self) -> Outcome {
        match *self {
            Step::Refused { why } => Outcome::Refused { why },
            Step::Transmit { seq, frame, retry, wait_ms } => Outcome::Transmit {
                seq,
                frame: frame@,
                retry,
                wait_ms,
            },
            Step::Wait { remaining_ms } => Outcome::Wait { remaining_ms },
            Step::Acked { seq } => Outcome::Acked { seq },
            Step::Failed { seq } => Outcome::Failed { seq },
            Step::Idle => Outcome::Idle,
        }
    }
}

impl Step {
    /// The event to report with this step, if any.
    pub fn log_record(&self) -> (record: Option<LogRecord>)
        ensures
            record == self@.log_record(),
    {
        match self {
            Step::Transmit { seq, retry, .. } => {
                let kind = if *retry == 0 {
                    EventKind::Send
                } else {
                    EventKind::Resend
                };
                Some(LogRecord { component: Component::Client, kind, seq: *seq })
            },
            Step::Acked { seq } => Some(
                LogRecord { component: Component::Client, kind: EventKind::AckRecv, seq: *seq },
            ),
            _ => None,
        }
    }
}

/// The message in flight.
struct InFlight {
    seq: u64,
    frame: Vec<u8>,
    retries: u32,
    deadline_ms: u64,
}

impl View for InFlight {
    type V = Pending;

    closed spec fn view(&self) -> Pending {
        Pending {
            seq: self.seq,
            frame: self.frame@,
            retries: self.retries,
            deadline_ms: self.deadline_ms,
        }
    }
}

/// The sending half of the protocol.
pub struct Sender {
    config: SenderConfig,
    issued: u64,
    in_flight: Option<InFlight>,
}

impl View for Sender {
    type V = SenderState;

    closed spec fn view(&self) -> SenderState {
        SenderState {
            config: self.config,
            issued: self.issued,
            pending: match self.in_flight {
                Some(m) => Some(m@),
                None => None,
            },
        }
    }
}

impl Sender {
    /// A sender that has sent nothing yet. Its first message gets the
    /// sequence id 1.
    pub fn new(config: SenderConfig) -> (sender: Sender)
        ensures
            sender@ == SenderState::initial(config),
            sender@.wf(),
    {
        Sender { config, issued: 0, in_flight: None }
    }

    /// The sender's settings.
    pub fn config(&self) -> (config: SenderConfig)
        ensures
            config == self@.config,
    {
        self.config
    }

    /// Whether a message is in flight.
    pub fn is_waiting(&self) -> (waiting: bool)
        ensures
            waiting == self@.pending is Some,
    {
        self.in_flight.is_some()
    }

    /// The sequence id of the message in flight, if there is one.
    pub fn outstanding(&self) -> (seq: Option<u64>)
        ensures
            seq == match self@.pending {
                Some(p) => Some(p.seq),
                None => None,
            },
    {
        match &self.in_flight {
            Some(m) => Some(m.seq),
            None => None,
        }
    }

    /// The sequence id that the next message gets, or `None` if there is
    /// none left. A frame is encoded with this id before it is submitted.
    pub fn next_seq(&self) -> (seq: Option<u64>)
        ensures
            seq == if self@.issued == u64::MAX {
                None
            } else {
                Some((self@.issued + 1) as u64)
            },
    {
        if self.issued == u64::MAX {
            None
        } else {
            Some(self.issued + 1)
        }
    }

    /// The wait window of the message in flight has closed.
    fn expire(&mut self, now_ms: u64) -> (step: Step)
        requires
            old(self)@.pending is Some,
        ensures
            (final(self)@, step@) == old(self)@.expire(old(self)@.pending->0, now_ms),
    {
        let config = self.config;
        match self.in_flight.take() {
            Some(m) => {
                if m.retries < config.max_retries {
                    let retry = m.retries + 1;
                    let frame = slice_to_vec(m.frame.as_slice());
                    let seq = m.seq;
                    self.in_flight = Some(
                        InFlight {
                            seq,
                            frame: m.frame,
                            retries: retry,
                            deadline_ms: now_ms.saturating_add(config.timeout_ms),
                        },
                    );
                    Step::Transmit { seq, frame, retry, wait_ms: config.timeout_ms }
                } else {
                    Step::Failed { seq: m.seq }
                }
            },
            None => Step::Idle,
        }
    }

    /// No acknowledgment of the message in flight has come by `now_ms`.
    fn unanswered(&mut self, now_ms: u64) -> (step: Step)
        requires
            old(self)@.pending is Some,
        ensures
            (final(self)@, step@) == old(self)@.unanswered(old(self)@.pending->0, now_ms),
    {
        let deadline_ms = match &self.in_flight {
            Some(m) => m.deadline_ms,
            None => 0,
        };
        if now_ms < deadline_ms {
            Step::Wait { remaining_ms: deadline_ms - now_ms }
        } else {
            self.expire(now_ms)
        }
    }

    /// Hands in a frame for sending at clock value `now_ms`.
    ///
    /// The frame is refused while a message is in flight, and when no
    /// sequence id is left. Else it becomes the message in flight under the
    /// id that [`Sender::next_seq`] announced, and the step says to transmit
    /// it.
    pub fn submit(&mut self, frame: Vec<u8>, now_ms: u64) -> (step: Step)
        ensures
            (final(self)@, step@) == old(self)@.step(Event::Submit { frame: frame@, now_ms }),
            old(self)@.wf() ==> final(self)@.wf(),
    {
        if self.in_flight.is_some() {
            Step::Refused { why: Refusal::Busy }
        } else if self.issued == u64::MAX {
            Step::Refused { why: Refusal::Exhausted }
        } else {
            let seq = self.issued + 1;
            let copy = slice_to_vec(frame.as_slice());
            self.issued = seq;
            self.in_flight = Some(
                InFlight {
                    seq,
                    frame,
                    retries: 0,
                    deadline_ms: now_ms.saturating_add(self.config.timeout_ms),
                },
            );
            Step::Transmit { seq, frame: copy, retry: 0, wait_ms: self.config.timeout_ms }
        }
    }

    /// Takes note of a datagram that came in at clock value `now_ms`.
    ///
    /// `ack` is the sequence id that the datagram acknowledges, or `None` if
    /// it could not be decoded. The acknowledgment of the message in flight
    /// frees the sender. Any other datagram is ignored: the wait goes on to
    /// the end of its window, or, if the window has closed meanwhile, the
    /// message is sent again or given up as on a tick.
    pub fn on_reply(&mut self, ack: Option<u64>, now_ms: u64) -> (step: Step)
        ensures
            (final(self)@, step@) == old(self)@.step(Event::Reply { ack, now_ms }),
            old(self)@.wf() ==> final(self)@.wf(),
    {
        let outstanding = self.outstanding();
        match outstanding {
            None => Step::Idle,
            Some(seq) => {
                if ack == Some(seq) {
                    self.in_flight = None;
                    Step::Acked { seq }
                } else {
                    self.unanswered(now_ms)
                }
            },
        }
    }

    /// Takes note that the clock has reached `now_ms`.
    ///
    /// Before the end of the wait window the step says how long is left.
    /// From its end on, the frame is sent again in a fresh window if a
    /// retransmission is left, else the message is given up.
    pub fn on_tick(&mut self, now_ms: u64) -> (step: Step)
        ensures
            (final(self)@, step@) == old(self)@.step(Event::Tick { now_ms }),
            old(self)@.wf() ==> final(self)@.wf(),
    {
        if self.in_flight.is_some() {
            self.unanswered(now_ms)
        } else {
            Step::Idle
        }
    }
}

} // verus!
