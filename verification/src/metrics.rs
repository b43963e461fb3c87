//! The metrics aggregator: four counters fed from a stream of event lines.
//!
//! Each line of the stream is handed over as it was parsed: a [`LogLine`],
//! or nothing where the line was malformed. A line counts if its component
//! and event are one of four recognised pairs; any other line, and every
//! malformed one, leaves the counters as they are. A counter never goes
//! down. It stops at the largest value it can hold.

use crate::events::{lemma_names_differ, Component, EventKind, LogRecord};
use crate::text::text_eq;
use vstd::prelude::*;

verus! {

/// One of the four counters.
#[derive(Clone, Copy, Debug, PartialEq, Eq, Structural)]
pub enum Counter {
    /// First transmissions by the sender.
    Sent,
    /// Messages received by the receiver.
    Received,
    /// Acknowledgments sent by the receiver.
    AckSent,
    /// Acknowledgments received by the sender.
    AckReceived,
}

/// A well-formed line of the event stream.
#[derive(Debug)]
pub struct LogLine {
    pub component: String,
    pub event: String,
    pub seq: Option<u64>,
}

/// Whether the names are those of the given component and kind of event.
pub open spec fn names(
    component: Seq<char>,
    event: Seq<char>,
    of: Component,
    kind: EventKind,
) -> bool {
    component == of.name() && event == kind.name()
}

/// The counter that an event with these names counts for, if any.
pub open spec fn counter_for(component: Seq<char>, event: Seq<char>) -> Option<Counter> {
    if names(component, event, Component::Client, EventKind::Send) {
        Some(Counter::Sent)
    } else if names(component, event, Component::Client, EventKind::AckRecv) {
        Some(Counter::AckReceived)
    } else if names(component, event, Component::Server, EventKind::Recv) {
        Some(Counter::Received)
    } else if names(component, event, Component::Server, EventKind::AckSend) {
        Some(Counter::AckSent)
    } else {
        None
    }
}

/// The counter that a line of the stream counts for, if any.
pub open spec fn counter_of(line: Option<LogLine>) -> Option<Counter> {
    match line {
        Some(line) => counter_for(line.component@, line.event@),
        None => None,
    }
}

/// How many of the lines count for the given counter.
pub open spec fn occurrences(lines: Seq<Option<LogLine>>, counter: Counter) -> nat
    decreases lines.len(),
{
    if lines.len() == 0 {
        0
    } else {
        occurrences(lines.drop_last(), counter) + if counter_of(lines.last()) == Some(counter) {
            1nat
        } else {
            0nat
        }
    }
}

/// A count as a counter holds it: itself, or the largest value that fits.
pub open spec fn capped(count: nat) -> u64 {
    if count > u64::MAX {
        u64::MAX
    } else {
        count as u64
    }
}

/// Tells which counter an event with these names counts for.
pub fn classify(component: &str, event: &str) -> (counter: Option<Counter>)
    ensures
        counter == counter_for(component@, event@),
{
    proof {
        lemma_names_differ();
    }
    if text_eq(component, Component::Client.as_str()) {
        if text_eq(event, EventKind::Send.as_str()) {
            Some(Counter::Sent)
        } else if text_eq(event, EventKind::AckRecv.as_str()) {
            Some(Counter::AckReceived)
        } else {
            None
        }
    } else if text_eq(component, Component::Server.as_str()) {
        if text_eq(event, EventKind::Recv.as_str()) {
            Some(Counter::Received)
        } else if text_eq(event, EventKind::AckSend.as_str()) {
            Some(Counter::AckSent)
        } else {
            None
        }
    } else {
        None
    }
}

/// The four counters.
#[derive(Clone, Copy, Debug, PartialEq, Eq, Structural)]
pub struct Metrics {
    pub sent: u64,
    pub received: u64,
    pub ack_sent: u64,
    pub ack_received: u64,
}

impl Metrics {
    /// The value of one counter.
    pub open spec fn count(self, counter: Counter) -> u64 {
        match counter {
            Counter::Sent => self.sent,
            Counter::Received => self.received,
            Counter::AckSent => self.ack_sent,
            Counter::AckReceived => self.ack_received,
        }
    }

    /// All four counters at zero.
    pub open spec fn zero() -> Metrics {
        Metrics { sent: 0, received: 0, ack_sent: 0, ack_received: 0 }
    }

    /// The metrics with one counter one higher, unless it is at its limit.
    pub open spec fn bumped(self, counter: Counter) -> Metrics {
        match counter {
            Counter::Sent => Metrics { sent: capped(self.sent as nat + 1), ..self },
            Counter::Received => Metrics { received: capped(self.received as nat + 1), ..self },
            Counter::AckSent => Metrics { ack_sent: capped(self.ack_sent as nat + 1), ..self },
            Counter::AckReceived => Metrics {
                ack_received: capped(self.ack_received as nat + 1),
                ..self
            },
        }
    }

    /// The metrics after one line of the stream.
    pub open spec fn absorbed(self, line: Option<LogLine>) -> Metrics {
        match counter_of(line) {
            Some(counter) => self.bumped(counter),
            None => self,
        }
    }

    /// The metrics after some lines of the stream, first to last.
    pub open spec fn absorbed_all(self, lines: Seq<Option<LogLine>>) -> Metrics
        decreases lines.len(),
    {
        if lines.len() == 0 {
            self
        } else {
            self.absorbed_all(lines.drop_last()).absorbed(lines.last())
        }
    }

    /// Fresh metrics: nothing counted yet.
    pub fn new() -> (metrics: Metrics)
        ensures
            metrics == Metrics::zero(),
    {
        Metrics { sent: 0, received: 0, ack_sent: 0, ack_received: 0 }
    }

    /// Reads one counter.
    pub fn get(&self, counter: Counter) -> (count: u64)
        ensures
            count == self.count(counter),
    {
        match counter {
            Counter::Sent => self.sent,
            Counter::Received => self.received,
            Counter::AckSent => self.ack_sent,
            Counter::AckReceived => self.ack_received,
        }
    }

    /// A copy of the counters as they stand, for display.
    pub fn snapshot(&self) -> (copy: Metrics)
        ensures
            copy == *self,
    {
        *self
    }

    /// Counts one event for the given counter.
    pub fn bump(&mut self, counter: Counter)
        ensures
            *final(self) == old(self).bumped(counter),
    {
        match counter {
            Counter::Sent => {
                self.sent = self.sent.saturating_add(1);
            },
            Counter::Received => {
                self.received = self.received.saturating_add(1);
            },
            Counter::AckSent => {
                self.ack_sent = self.ack_sent.saturating_add(1);
            },
            Counter::AckReceived => {
                self.ack_received = self.ack_received.saturating_add(1);
            },
        }
    }

    /// Counts an event by the names of its component and kind, if the pair
    /// is a recognised one.
    pub fn record(&mut self, component: &str, event: &str)
        ensures
            *final(self) == match counter_for(component@, event@) {
                Some(counter) => old(self).bumped(counter),
                None => *old(self),
            },
    {
        match classify(component, event) {
            Some(counter) => self.bump(counter),
            None => {},
        }
    }

    /// Takes in one line of the stream as it was parsed: `None` for a
    /// malformed line, which counts for nothing.
    pub fn absorb(&mut self, line: &Option<LogLine>)
        ensures
            *final(self) == old(self).absorbed(*line),
    {
        match line {
            Some(line) => self.record(line.component.as_str(), line.event.as_str()),
            None => {},
        }
    }

    /// Takes in some lines of the stream, first to last.
    pub fn absorb_all(&mut self, lines: &Vec<Option<LogLine>>)
        ensures
            *final(self) == old(self).absorbed_all(lines@),
    {
        let mut i: usize = 0;
        while i < lines.len()
            invariant
                i <= lines@.len(),
                *self == old(self).absorbed_all(lines@.take(i as int)),
            decreases lines@.len() - i,
        {
            self.absorb(&lines[i]);
            assert(lines@.take(i + 1).drop_last() =~= lines@.take(i as int));
            i += 1;
        }
        assert(lines@.take(lines@.len() as int) =~= lines@);
    }
}

/// The counter that a reported event counts for, if any: a first
/// transmission, the receipt of a message, the sending of an
/// acknowledgment, and its receipt. A retransmission counts for nothing.
pub open spec fn counter_of_record(record: LogRecord) -> Option<Counter> {
    match (record.component, record.kind) {
        (Component::Client, EventKind::Send) => Some(Counter::Sent),
        (Component::Client, EventKind::AckRecv) => Some(Counter::AckReceived),
        (Component::Server, EventKind::Recv) => Some(Counter::Received),
        (Component::Server, EventKind::AckSend) => Some(Counter::AckSent),
        _ => None,
    }
}

/// An event that the sender or the receiver reports is counted, under the
/// names it travels by, as what it is.
pub proof fn law_reported_events_count(record: LogRecord)
    ensures
        counter_for(record.component.name(), record.kind.name()) == counter_of_record(record),
{
    lemma_names_differ();
}

/// A line that is malformed, or whose component and event are no
/// recognised pair, leaves every counter as it is.
pub proof fn law_other_lines_ignored(metrics: Metrics, line: Option<LogLine>)
    requires
        counter_of(line) is None,
    ensures
        metrics.absorbed(line) == metrics,
        line is None ==> counter_of(line) is None,
{
}

/// A line moves at most its own counter, by one, and no counter ever goes
/// down.
pub proof fn law_counters_never_decrease(metrics: Metrics, line: Option<LogLine>, counter: Counter)
    ensures
        metrics.absorbed(line).count(counter) >= metrics.count(counter),
        metrics.absorbed(line).count(counter) == if counter_of(line) == Some(counter) {
            capped(metrics.count(counter) as nat + 1)
        } else {
            metrics.count(counter)
        },
{
}

/// After any run of lines, each counter has gone up by the number of lines
/// that count for it, up to the largest value it can hold.
pub proof fn law_counters_count_recognised_lines(
    metrics: Metrics,
    lines: Seq<Option<LogLine>>,
    counter: Counter,
)
    ensures
        metrics.absorbed_all(lines).count(counter) == capped(
            metrics.count(counter) as nat + occurrences(lines, counter),
        ),
    decreases lines.len(),
{
    if lines.len() > 0 {
        law_counters_count_recognised_lines(metrics, lines.drop_last(), counter);
        law_counters_never_decrease(metrics.absorbed_all(lines.drop_last()), lines.last(), counter);
    }
}

/// Counted from zero, each counter equals the number of lines that count
/// for it; malformed and unrecognised lines add nothing.
pub proof fn law_tally_is_exact(lines: Seq<Option<LogLine>>, counter: Counter)
    ensures
        Metrics::zero().absorbed_all(lines).count(counter) == capped(occurrences(lines, counter)),
        occurrences(lines, counter) <= lines.len(),
    decreases lines.len(),
{
    law_counters_count_recognised_lines(Metrics::zero(), lines, counter);
    if lines.len() > 0 {
        law_tally_is_exact(lines.drop_last(), counter);
    }
}

/// The height of the bar that shows a counter: the count itself up to 255,
/// and 255 beyond.
pub fn gauge(count: u64) -> (height: u8)
    ensures
        height == if count > 255 {
            255
        } else {
            count
        },
{
    if count > 255 {
        255
    } else {
        count as u8
    }
}

} // verus!
