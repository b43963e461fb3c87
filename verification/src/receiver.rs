//! The receiving half of the protocol.
//!
//! A [`Receiver`] is handed each datagram as it was decoded: a
//! [`Message`], or nothing where the bytes were no message. It answers
//! every message with an acknowledgment of its sequence id, and lets the
//! payload through only the first time that id is seen. The set of ids seen
//! only grows; nothing is ever forgotten.

use crate::events::{Component, EventKind, LogRecord};
use crate::message::{Ack, Message};
use std::collections::HashSet;
use vstd::prelude::*;

verus! {

broadcast use vstd::std_specs::hash::group_hash_axioms;

/// What a receiver makes of a datagram, as a mathematical value. See
/// [`Receipt`].
pub enum Reception {
    Discarded,
    Fresh { seq: u64, payload: Seq<char> },
    Duplicate { seq: u64 },
}

/// What a receiver that has seen the ids `seen` makes of a datagram:
/// nothing if it did not decode; else an acknowledgment of its id, with the
/// payload if the id is new.
pub open spec fn reception(seen: Set<u64>, decoded: Option<Message>) -> Reception {
    match decoded {
        None => Reception::Discarded,
        Some(message) => if seen.contains(message.seq) {
            Reception::Duplicate { seq: message.seq }
        } else {
            Reception::Fresh { seq: message.seq, payload: message.payload@ }
        },
    }
}

/// The ids that a receiver has seen after a datagram, having seen `seen`
/// before.
pub open spec fn seen_with(seen: Set<u64>, decoded: Option<Message>) -> Set<u64> {
    match decoded {
        None => seen,
        Some(message) => seen.insert(message.seq),
    }
}

impl Reception {
    /// The sequence id that is acknowledged, if any is.
    pub open spec fn acked(self) -> Option<u64> {
        match self {
            Reception::Discarded => None,
            Reception::Fresh { seq, .. } => Some(seq),
            Reception::Duplicate { seq } => Some(seq),
        }
    }

    /// The payload that is let through, if any is.
    pub open spec fn surfaced(self) -> Option<Seq<char>> {
        match self {
            Reception::Fresh { payload, .. } => Some(payload),
            _ => None,
        }
    }
}

/// What to do about a datagram.
#[derive(Debug)]
pub enum Receipt {
    /// Nothing: it was no message. No reply, no event.
    Discarded,
    /// A message with a new sequence id: process `payload` and reply with
    /// `ack`.
    Fresh { ack: Ack, payload: String },
    /// A message whose sequence id was seen before: reply with `ack`, and
    /// leave the payload alone.
    Duplicate { ack: Ack },
}

impl View for Receipt {
    type V = Reception;

    open spec fn view(&self) -> Reception {
        match *self {
            Receipt::Discarded => Reception::Discarded,
            Receipt::Fresh { ack, payload } => Reception::Fresh { seq: ack.seq, payload: payload@ },
            Receipt::Duplicate { ack } => Reception::Duplicate { seq: ack.seq },
        }
    }
}

impl Receipt {
    /// The acknowledgment to send, if any.
    pub fn ack(&self) -> (ack: Option<Ack>)
        ensures
            ack == match self@.acked() {
                Some(seq) => Some(Ack { seq }),
                None => None,
            },
    {
        match self {
            Receipt::Discarded => None,
            Receipt::Fresh { ack, .. } => Some(*ack),
            Receipt::Duplicate { ack } => Some(*ack),
        }
    }

    /// The event to report when the message has been received: `recv`.
    /// There is none for a datagram that was no message.
    pub fn arrival_record(&self) -> (record: Option<LogRecord>)
        ensures
            record == match self@.acked() {
                Some(seq) => Some(
                    LogRecord { component: Component::Server, kind: EventKind::Recv, seq },
                ),
                None => None,
            },
    {
        match self.ack() {
            Some(ack) => Some(
                LogRecord { component: Component::Server, kind: EventKind::Recv, seq: ack.seq },
            ),
            None => None,
        }
    }

    /// The event to report when the acknowledgment has been sent:
    /// `ack_send`. There is none for a datagram that was no message.
    pub fn reply_record(&self) -> (record: Option<LogRecord>)
        ensures
            record == match self@.acked() {
                Some(seq) => Some(
                    LogRecord { component: Component::Server, kind: EventKind::AckSend, seq },
                ),
                None => None,
            },
    {
        match self.ack() {
            Some(ack) => Some(
                LogRecord { component: Component::Server, kind: EventKind::AckSend, seq: ack.seq },
            ),
            None => None,
        }
    }
}

/// The receiving half of the protocol.
pub struct Receiver {
    seen: HashSet<u64>,
}

impl View for Receiver {
    type V = Set<u64>;

    closed spec fn view(&self) -> Set<u64> {
        self.seen@
    }
}

impl Receiver {
    /// A receiver that has seen nothing.
    pub fn new() -> (receiver: Receiver)
        ensures
            receiver@ == Set::<u64>::empty(),
    {
        Receiver { seen: HashSet::new() }
    }

    /// Whether a message with this sequence id has been received.
    pub fn has_seen(&self, seq: u64) -> (seen: bool)
        ensures
            seen == self@.contains(seq),
    {
        self.seen.contains(&seq)
    }

    /// Takes in a datagram as it was decoded.
    ///
    /// A datagram that did not decode changes nothing. A message is
    /// acknowledged under its own sequence id, and its id is remembered. Its
    /// payload is handed back for processing if the id is new, and withheld
    /// if not.
    pub fn handle_datagram(&mut self, decoded: Option<Message>) -> (receipt: Receipt)
        ensures
            receipt@ == reception(old(self)@, decoded),
            final(self)@ == seen_with(old(self)@, decoded),
    {
        match decoded {
            None => Receipt::Discarded,
            Some(message) => {
                let ack = Ack { seq: message.seq };
                if self.seen.insert(message.seq) {
                    Receipt::Fresh { ack, payload: message.payload }
                } else {
                    Receipt::Duplicate { ack }
                }
            },
        }
    }
}

/// The ids that a receiver has seen after a run of datagrams, first to
/// last, having seen `seen` before.
pub open spec fn seen_after(seen: Set<u64>, datagrams: Seq<Option<Message>>) -> Set<u64>
    decreases datagrams.len(),
{
    if datagrams.len() == 0 {
        seen
    } else {
        seen_with(seen_after(seen, datagrams.drop_last()), datagrams.last())
    }
}

/// What a receiver makes of the datagram at `index` of a run, having seen
/// `seen` before the run.
pub open spec fn reception_at(
    seen: Set<u64>,
    datagrams: Seq<Option<Message>>,
    index: int,
) -> Reception {
    reception(seen_after(seen, datagrams.take(index)), datagrams[index])
}

/// Whether one of the datagrams is a message with the sequence id `seq`.
pub open spec fn holds_seq(datagrams: Seq<Option<Message>>, seq: u64) -> bool {
    exists|i: int|
        0 <= i < datagrams.len() && (#[trigger] datagrams[i] matches Some(message) && message.seq
            == seq)
}

/// A receiver has seen an id after a run exactly if it had seen it before,
/// or a message of the run carried it. Nothing is forgotten, and nothing is
/// made up.
pub proof fn lemma_seen_after(seen: Set<u64>, datagrams: Seq<Option<Message>>, seq: u64)
    ensures
        seen_after(seen, datagrams).contains(seq) <==> seen.contains(seq) || holds_seq(
            datagrams,
            seq,
        ),
    decreases datagrams.len(),
{
    if datagrams.len() > 0 {
        let earlier = datagrams.drop_last();
        let last = datagrams.len() - 1;
        lemma_seen_after(seen, earlier, seq);
        if holds_seq(earlier, seq) {
            let i = choose|i: int|
                0 <= i < earlier.len() && (#[trigger] earlier[i] matches Some(message)
                    && message.seq == seq);
            assert(datagrams[i] == earlier[i]);
        }
        if holds_seq(datagrams, seq) {
            let i = choose|i: int|
                0 <= i < datagrams.len() && (#[trigger] datagrams[i] matches Some(message)
                    && message.seq == seq);
            if i < last {
                assert(earlier[i] == datagrams[i]);
            }
        }
        if datagrams[last] matches Some(message) && message.seq == seq {
            assert(holds_seq(datagrams, seq));
        }
    }
}

/// Every message is acknowledged under its own sequence id, whatever was
/// received before it. A datagram that is no message gets no reply and
/// leaves the receiver as it was.
pub proof fn law_every_message_acked(seen: Set<u64>, decoded: Option<Message>)
    ensures
        reception(seen, decoded).acked() == match decoded {
            Some(message) => Some(message.seq),
            None => None,
        },
        decoded is None ==> reception(seen, decoded) == Reception::Discarded && seen_with(
            seen,
            decoded,
        ) == seen,
        seen.subset_of(seen_with(seen, decoded)),
{
}

/// Of two messages with the same sequence id, both are acknowledged under
/// that id, and the payload of the later one is withheld.
pub proof fn law_repeat_is_acked_and_withheld(
    seen: Set<u64>,
    datagrams: Seq<Option<Message>>,
    first: int,
    second: int,
)
    requires
        0 <= first < second < datagrams.len(),
        datagrams[first] is Some,
        datagrams[second] is Some,
        datagrams[first]->0.seq == datagrams[second]->0.seq,
    ensures
        reception_at(seen, datagrams, first).acked() == Some(datagrams[first]->0.seq),
        reception_at(seen, datagrams, second) == (Reception::Duplicate {
            seq: datagrams[first]->0.seq,
        }),
        reception_at(seen, datagrams, second).surfaced() is None,
{
    let seq = datagrams[first]->0.seq;
    let earlier = datagrams.take(second);
    assert(earlier[first] == datagrams[first]);
    assert(holds_seq(earlier, seq));
    lemma_seen_after(seen, earlier, seq);
}

/// The first message with a sequence id that the receiver has not seen is
/// acknowledged under that id, and its payload is let through.
pub proof fn law_first_is_acked_and_surfaced(
    seen: Set<u64>,
    datagrams: Seq<Option<Message>>,
    first: int,
)
    requires
        0 <= first < datagrams.len(),
        datagrams[first] is Some,
        !seen.contains(datagrams[first]->0.seq),
        forall|i: int|
            0 <= i < first ==> (#[trigger] datagrams[i] matches Some(message) ==> message.seq
                != datagrams[first]->0.seq),
    ensures
        reception_at(seen, datagrams, first) == (Reception::Fresh {
            seq: datagrams[first]->0.seq,
            payload: datagrams[first]->0.payload@,
        }),
{
    let seq = datagrams[first]->0.seq;
    let earlier = datagrams.take(first);
    lemma_seen_after(seen, earlier, seq);
    if holds_seq(earlier, seq) {
        let i = choose|i: int|
            0 <= i < earlier.len() && (#[trigger] earlier[i] matches Some(message) && message.seq
                == seq);
        assert(earlier[i] == datagrams[i]);
    }
}

} // verus!
