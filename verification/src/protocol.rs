//! What holds of the protocol as a whole: runs of the sender, and the
//! sender and the receiver taken together.
//!
//! Nothing here is executed. The statements are about
//! [`SenderState::step`] and [`reception`], the functions that the sender
//! and the receiver are proved to follow.

use crate::message::Message;
use crate::receiver::{reception, Reception};
use crate::sender::{Event, Outcome, SenderConfig, SenderState};
use vstd::prelude::*;

verus! {

/// The state of a sender after a run of events, first to last, and its
/// answers to them.
pub open spec fn run(start: SenderState, events: Seq<Event>) -> (SenderState, Seq<Outcome>)
    decreases events.len(),
{
    if events.len() == 0 {
        (start, Seq::empty())
    } else {
        let (mid, answers) = run(start, events.drop_last());
        let (end, answer) = mid.step(events.last());
        (end, answers.push(answer))
    }
}

/// How many of the answers say to transmit.
pub open spec fn transmissions(answers: Seq<Outcome>) -> nat
    decreases answers.len(),
{
    if answers.len() == 0 {
        0
    } else {
        transmissions(answers.drop_last()) + if answers.last() is Transmit {
            1nat
        } else {
            0nat
        }
    }
}

/// How many of the answers say to transmit again.
pub open spec fn retransmissions(answers: Seq<Outcome>) -> nat
    decreases answers.len(),
{
    if answers.len() == 0 {
        0
    } else {
        retransmissions(answers.drop_last()) + if answers.last() matches Outcome::Transmit {
            retry,
            ..
        } && retry > 0 {
            1nat
        } else {
            0nat
        }
    }
}

/// How many of the answers report a failure.
pub open spec fn failures(answers: Seq<Outcome>) -> nat
    decreases answers.len(),
{
    if answers.len() == 0 {
        0
    } else {
        failures(answers.drop_last()) + if answers.last() is Failed {
            1nat
        } else {
            0nat
        }
    }
}

/// Whether the event brings no acknowledgment of the message `seq`, and no
/// new frame: time passing, or a datagram that is something else.
pub open spec fn silent(event: Event, seq: u64) -> bool {
    match event {
        Event::Tick { .. } => true,
        Event::Reply { ack, .. } => ack != Some(seq),
        Event::Submit { .. } => false,
    }
}

/// Whether the answer, if it says to transmit, says to transmit the message
/// `seq` again, with the frame `frame`.
pub open spec fn resends_only(answer: Outcome, seq: u64, frame: Seq<u8>) -> bool {
    answer matches Outcome::Transmit { seq: again, frame: bytes, retry, .. } ==> again == seq
        && bytes == frame && retry >= 1
}

/// Whether the answer, if it reports a failure, reports that of the message
/// `seq`.
pub open spec fn fails_only(answer: Outcome, seq: u64) -> bool {
    answer matches Outcome::Failed { seq: failed } ==> failed == seq
}

/// Every step keeps a sender's state well-formed and its settings as they
/// are. Sequence ids are given out in order: a first transmission carries
/// the id after the one given out last, and nothing else gives out an id.
pub proof fn law_sequence_ids_in_order(state: SenderState, event: Event)
    requires
        state.wf(),
    ensures
        ({
            let (next, answer) = state.step(event);
            &&& next.wf()
            &&& next.config == state.config
            &&& match answer {
                Outcome::Transmit { seq, retry, .. } => if retry == 0 {
                    seq == state.issued + 1 && next.issued == seq
                } else {
                    next.issued == state.issued
                },
                _ => next.issued == state.issued,
            }
        }),
{
}

/// The sequence ids under which the answers start a message, in order: those
/// of the first transmissions.
pub open spec fn first_ids(answers: Seq<Outcome>) -> Seq<u64>
    decreases answers.len(),
{
    if answers.len() == 0 {
        Seq::empty()
    } else {
        let before = first_ids(answers.drop_last());
        match answers.last() {
            Outcome::Transmit { seq, retry, .. } => if retry == 0 {
                before.push(seq)
            } else {
                before
            },
            _ => before,
        }
    }
}

/// Over any run of events a sender numbers its messages one after the
/// other: the ids go up by one from message to message, none is used twice,
/// and a sender that starts fresh starts at 1.
pub proof fn law_ids_count_up(start: SenderState, events: Seq<Event>)
    requires
        start.wf(),
    ensures
        ({
            let (end, answers) = run(start, events);
            let ids = first_ids(answers);
            &&& end.wf()
            &&& end.config == start.config
            &&& end.issued == start.issued + ids.len()
            &&& forall|k: int| 0 <= k < ids.len() ==> #[trigger] ids[k] == start.issued + 1 + k
        }),
    decreases events.len(),
{
    if events.len() > 0 {
        law_ids_count_up(start, events.drop_last());
        let (mid, before) = run(start, events.drop_last());
        law_sequence_ids_in_order(mid, events.last());
        let (end, answer) = mid.step(events.last());
        assert(before.push(answer).drop_last() =~= before);
    }
}

/// The first message of a sender gets the sequence id 1.
pub proof fn law_first_sequence_id(config: SenderConfig, frame: Seq<u8>, now_ms: u64)
    ensures
        SenderState::initial(config).step(Event::Submit { frame, now_ms }).1
            == (Outcome::Transmit { seq: 1, frame, retry: 0, wait_ms: config.timeout_ms }),
{
}

/// A message whose first transmission is answered by its acknowledgment is
/// delivered with that one transmission: the sender transmits the frame
/// once, reports success for its sequence id, and is free again.
pub proof fn law_prompt_ack_one_transmission(
    state: SenderState,
    frame: Seq<u8>,
    sent_ms: u64,
    acked_ms: u64,
)
    requires
        state.wf(),
        state.pending is None,
        state.issued < u64::MAX,
    ensures
        ({
            let seq = (state.issued + 1) as u64;
            let events = seq![
                Event::Submit { frame, now_ms: sent_ms },
                Event::Reply { ack: Some(seq), now_ms: acked_ms },
            ];
            let (end, answers) = run(state, events);
            &&& answers == seq![
                Outcome::Transmit { seq, frame, retry: 0, wait_ms: state.config.timeout_ms },
                Outcome::Acked { seq },
            ]
            &&& transmissions(answers) == 1
            &&& end.pending is None
            &&& end.wf()
        }),
{
    let seq = (state.issued + 1) as u64;
    let submit = Event::Submit { frame, now_ms: sent_ms };
    let reply = Event::Reply { ack: Some(seq), now_ms: acked_ms };
    let events = seq![submit, reply];
    assert(events.drop_last() =~= seq![submit]);
    assert(seq![submit].drop_last() =~= Seq::<Event>::empty());
    reveal_with_fuel(run, 3);
    let (end, answers) = run(state, events);
    let first = Outcome::Transmit { seq, frame, retry: 0, wait_ms: state.config.timeout_ms };
    let second = Outcome::Acked { seq };
    assert(answers =~= seq![first, second]);
    assert(answers.drop_last() =~= seq![first]);
    assert(seq![first].drop_last() =~= Seq::<Outcome>::empty());
    reveal_with_fuel(transmissions, 3);
}

/// Without loss, the acknowledgment that a receiver gives for a message is
/// the one that frees the sender of it, whatever the receiver has seen
/// before: to the receipt of the message `seq` the receiver answers with an
/// acknowledgment that the sender, waiting for `seq`, takes as success.
pub proof fn law_receipt_frees_sender(
    state: SenderState,
    seen: Set<u64>,
    message: Message,
    now_ms: u64,
)
    requires
        state.pending matches Some(p) && p.seq == message.seq,
    ensures
        ({
            let ack = reception(seen, Some(message)).acked();
            let (end, answer) = state.step(Event::Reply { ack, now_ms });
            &&& ack == Some(message.seq)
            &&& answer == (Outcome::Acked { seq: message.seq })
            &&& end.pending is None
        }),
{
}

/// A message that gets no acknowledgment is sent again, byte for byte, once
/// for each wait window that closes, and given up after the configured
/// number of retransmissions.
///
/// Take a sender with a message in flight and any run of events that are
/// silent for it. Every transmission in the run is a retransmission of that
/// message with its frame unchanged, and nothing but that message is
/// reported as failed; none is reported as acknowledged. While the message
/// is in flight, the retransmissions made are those counted in its state.
/// Once it is no longer in flight it has been reported as failed once, and
/// the retransmissions made since it was first sent are exactly
/// `max_retries`.
pub proof fn law_unanswered_message(state: SenderState, events: Seq<Event>)
    requires
        state.wf(),
        state.pending is Some,
        forall|i: int| 0 <= i < events.len() ==> silent(#[trigger] events[i], state.pending->0.seq),
    ensures
        ({
            let p = state.pending->0;
            let (end, answers) = run(state, events);
            &&& answers.len() == events.len()
            &&& end.wf()
            &&& end.config == state.config
            &&& end.issued == state.issued
            &&& forall|i: int|
                0 <= i < answers.len() ==> resends_only(#[trigger] answers[i], p.seq, p.frame)
            &&& forall|i: int| 0 <= i < answers.len() ==> fails_only(#[trigger] answers[i], p.seq)
            &&& forall|i: int|
                0 <= i < answers.len() ==> !(#[trigger] answers[i] is Acked) && !(answers[i]
                    is Refused)
            &&& match end.pending {
                Some(q) => {
                    &&& q.seq == p.seq
                    &&& q.frame == p.frame
                    &&& q.retries == p.retries + retransmissions(answers)
                    &&& failures(answers) == 0
                },
                None => {
                    &&& p.retries + retransmissions(answers) == state.config.max_retries
                    &&& failures(answers) == 1
                },
            }
        }),
    decreases events.len(),
{
    if events.len() > 0 {
        let earlier = events.drop_last();
        assert forall|i: int| 0 <= i < earlier.len() implies silent(
            #[trigger] earlier[i],
            state.pending->0.seq,
        ) by {
            assert(earlier[i] == events[i]);
        }
        law_unanswered_message(state, earlier);
        let (mid, before) = run(state, earlier);
        let (end, answer) = mid.step(events.last());
        let answers = before.push(answer);
        assert(silent(events[events.len() - 1], state.pending->0.seq));
        assert(answers.drop_last() =~= before);
        assert forall|i: int| 0 <= i < answers.len() implies {
            &&& resends_only(#[trigger] answers[i], state.pending->0.seq, state.pending->0.frame)
            &&& fails_only(answers[i], state.pending->0.seq)
            &&& !(answers[i] is Acked)
            &&& !(answers[i] is Refused)
        } by {
            if i < before.len() {
                assert(answers[i] == before[i]);
            }
        }
    }
}

/// A run of `n` readings of the clock at the end of time, each of which
/// finds any wait window closed.
pub open spec fn closings(n: nat) -> Seq<Event> {
    Seq::new(n, |i: int| Event::Tick { now_ms: u64::MAX })
}

/// A message that is never acknowledged does fail, and not before its
/// retransmissions are used up: each wait window that closes costs one
/// retransmission while one is left, and the window that closes after the
/// last retransmission ends the message with a failure.
pub proof fn law_closing_windows_fail_the_message(state: SenderState, n: nat)
    requires
        state.wf(),
        state.pending is Some,
        n <= state.config.max_retries - state.pending->0.retries + 1,
    ensures
        ({
            let p = state.pending->0;
            let left = state.config.max_retries - p.retries;
            let (end, answers) = run(state, closings(n));
            &&& answers.len() == n
            &&& end.config == state.config
            &&& end.issued == state.issued
            &&& n <= left ==> {
                &&& end.pending matches Some(q) && q.seq == p.seq && q.frame == p.frame
                    && q.retries == p.retries + n
                &&& retransmissions(answers) == n
                &&& failures(answers) == 0
            }
            &&& n == left + 1 ==> {
                &&& end.pending is None
                &&& retransmissions(answers) == left
                &&& failures(answers) == 1
                &&& answers.last() == (Outcome::Failed { seq: p.seq })
            }
        }),
    decreases n,
{
    if n > 0 {
        let earlier = closings((n - 1) as nat);
        assert(closings(n).drop_last() =~= earlier);
        law_closing_windows_fail_the_message(state, (n - 1) as nat);
        let (mid, before) = run(state, earlier);
        let (end, answer) = mid.step(closings(n).last());
        assert(before.push(answer).drop_last() =~= before);
    }
}

/// If every reply to a message is lost, the sender sends its frame again
/// exactly `max_retries` times, byte for byte, and then reports the message
/// as failed.
///
/// Take a free sender, a frame, and any run of events after the submission
/// that are silent for the message. If the sender is free again at the end
/// of the run, then it has transmitted the frame once, retransmitted that
/// same frame exactly `max_retries` times, and reported the failure of the
/// message, once.
pub proof fn law_lost_replies_exhaust_retries(
    state: SenderState,
    frame: Seq<u8>,
    sent_ms: u64,
    events: Seq<Event>,
)
    requires
        state.wf(),
        state.pending is None,
        state.issued < u64::MAX,
        forall|i: int|
            0 <= i < events.len() ==> silent(#[trigger] events[i], (state.issued + 1) as u64),
        run(state.submit(frame, sent_ms).0, events).0.pending is None,
    ensures
        ({
            let seq = (state.issued + 1) as u64;
            let (waiting, first) = state.submit(frame, sent_ms);
            let (end, answers) = run(waiting, events);
            &&& first == (Outcome::Transmit {
                seq,
                frame,
                retry: 0,
                wait_ms: state.config.timeout_ms,
            })
            &&& retransmissions(answers) == state.config.max_retries
            &&& failures(answers) == 1
            &&& forall|i: int|
                0 <= i < answers.len() ==> resends_only(#[trigger] answers[i], seq, frame)
            &&& forall|i: int| 0 <= i < answers.len() ==> fails_only(#[trigger] answers[i], seq)
        }),
{
    let (waiting, first) = state.submit(frame, sent_ms);
    law_unanswered_message(waiting, events);
}

} // verus!
