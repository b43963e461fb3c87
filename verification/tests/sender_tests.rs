use reliable_udp::events::{Component, EventKind, LogRecord};
use reliable_udp::sender::{Refusal, Sender, SenderConfig, Step};

fn config(timeout_ms: u64, max_retries: u32) -> SenderConfig {
    SenderConfig { timeout_ms, max_retries }
}

fn frame() -> Vec<u8> {
    b"{\"msg\":\"hello\",\"seq\":1}".to_vec()
}

fn expect_transmit(step: Step) -> (u64, Vec<u8>, u32, u64) {
    match step {
        Step::Transmit { seq, frame, retry, wait_ms } => (seq, frame, retry, wait_ms),
        other => panic!("expected a transmission, got {:?}", other),
    }
}

#[test]
fn new_sender_is_free_and_starts_at_one() {
    let sender = Sender::new(config(1000, 3));
    assert!(!sender.is_waiting());
    assert_eq!(sender.outstanding(), None);
    assert_eq!(sender.next_seq(), Some(1));
    assert_eq!(sender.config(), config(1000, 3));
}

#[test]
fn submit_transmits_under_the_announced_id() {
    let mut sender = Sender::new(config(1000, 3));
    let announced = sender.next_seq();
    let (seq, bytes, retry, wait_ms) = expect_transmit(sender.submit(frame(), 50));
    assert_eq!(Some(seq), announced);
    assert_eq!(seq, 1);
    assert_eq!(bytes, frame());
    assert_eq!(retry, 0);
    assert_eq!(wait_ms, 1000);
    assert!(sender.is_waiting());
    assert_eq!(sender.outstanding(), Some(1));
}

#[test]
fn prompt_ack_needs_one_transmission() {
    let mut sender = Sender::new(config(1000, 3));
    let mut transmissions = 0;
    if let Step::Transmit { .. } = sender.submit(frame(), 0) {
        transmissions += 1;
    }
    let step = sender.on_reply(Some(1), 3);
    assert!(matches!(step, Step::Acked { seq: 1 }));
    assert_eq!(transmissions, 1);
    assert!(!sender.is_waiting());
    assert_eq!(sender.next_seq(), Some(2));
}

#[test]
fn ack_is_taken_even_after_the_window_closed() {
    let mut sender = Sender::new(config(1000, 3));
    sender.submit(frame(), 0);
    let step = sender.on_reply(Some(1), 5000);
    assert!(matches!(step, Step::Acked { seq: 1 }));
}

#[test]
fn lost_replies_give_exactly_max_retries_retransmissions() {
    let mut sender = Sender::new(config(1000, 3));
    let (seq, first, _, _) = expect_transmit(sender.submit(frame(), 0));
    let mut now = 0u64;
    let mut retransmissions = 0u32;
    loop {
        now += 1000;
        match sender.on_tick(now) {
            Step::Transmit { seq: again, frame: bytes, retry, wait_ms } => {
                retransmissions += 1;
                assert_eq!(again, seq);
                assert_eq!(bytes, first);
                assert_eq!(retry, retransmissions);
                assert_eq!(wait_ms, 1000);
            }
            Step::Failed { seq: failed } => {
                assert_eq!(failed, seq);
                break;
            }
            other => panic!("unexpected step {:?}", other),
        }
    }
    assert_eq!(retransmissions, 3);
    assert!(!sender.is_waiting());
}

#[test]
fn zero_retries_fails_after_one_full_wait() {
    let mut sender = Sender::new(config(200, 0));
    sender.submit(frame(), 10);
    assert!(matches!(sender.on_tick(209), Step::Wait { remaining_ms: 1 }));
    assert!(matches!(sender.on_tick(210), Step::Failed { seq: 1 }));
    assert!(!sender.is_waiting());
}

#[test]
fn failed_message_is_not_retried_and_next_gets_next_id() {
    let mut sender = Sender::new(config(100, 1));
    sender.submit(frame(), 0);
    assert!(matches!(sender.on_tick(100), Step::Transmit { seq: 1, retry: 1, .. }));
    assert!(matches!(sender.on_tick(200), Step::Failed { seq: 1 }));
    assert!(matches!(sender.on_tick(300), Step::Idle));
    assert!(matches!(sender.on_reply(Some(1), 301), Step::Idle));
    let (seq, bytes, retry, _) = expect_transmit(sender.submit(b"next".to_vec(), 400));
    assert_eq!(seq, 2);
    assert_eq!(bytes, b"next".to_vec());
    assert_eq!(retry, 0);
}

#[test]
fn tick_before_the_deadline_keeps_waiting() {
    let mut sender = Sender::new(config(1000, 3));
    sender.submit(frame(), 100);
    assert!(matches!(sender.on_tick(100), Step::Wait { remaining_ms: 1000 }));
    assert!(matches!(sender.on_tick(600), Step::Wait { remaining_ms: 500 }));
    assert!(matches!(sender.on_tick(1099), Step::Wait { remaining_ms: 1 }));
    assert!(matches!(sender.on_tick(1100), Step::Transmit { seq: 1, retry: 1, .. }));
}

#[test]
fn mismatched_ack_leaves_the_wait_as_it_is() {
    let mut sender = Sender::new(config(1000, 2));
    sender.submit(frame(), 0);
    assert!(matches!(sender.on_reply(Some(7), 400), Step::Wait { remaining_ms: 600 }));
    assert!(matches!(sender.on_reply(Some(0), 700), Step::Wait { remaining_ms: 300 }));
    assert_eq!(sender.outstanding(), Some(1));
    // The attempt count is untouched: two retransmissions are still to come.
    assert!(matches!(sender.on_tick(1000), Step::Transmit { retry: 1, .. }));
    assert!(matches!(sender.on_tick(2000), Step::Transmit { retry: 2, .. }));
    assert!(matches!(sender.on_tick(3000), Step::Failed { seq: 1 }));
}

#[test]
fn undecodable_reply_is_ignored() {
    let mut sender = Sender::new(config(1000, 2));
    sender.submit(frame(), 0);
    assert!(matches!(sender.on_reply(None, 250), Step::Wait { remaining_ms: 750 }));
    assert!(sender.is_waiting());
}

#[test]
fn mismatched_ack_after_the_deadline_counts_as_expiry() {
    let mut sender = Sender::new(config(1000, 1));
    sender.submit(frame(), 0);
    assert!(matches!(sender.on_reply(Some(9), 1000), Step::Transmit { seq: 1, retry: 1, .. }));
    assert!(matches!(sender.on_reply(None, 2500), Step::Failed { seq: 1 }));
}

#[test]
fn each_retransmission_opens_a_full_window() {
    let mut sender = Sender::new(config(1000, 2));
    sender.submit(frame(), 0);
    // The first window closes late; the next one still lasts the full time.
    assert!(matches!(sender.on_tick(1700), Step::Transmit { retry: 1, wait_ms: 1000, .. }));
    assert!(matches!(sender.on_tick(2000), Step::Wait { remaining_ms: 700 }));
    assert!(matches!(sender.on_tick(2699), Step::Wait { remaining_ms: 1 }));
    assert!(matches!(sender.on_tick(2700), Step::Transmit { retry: 2, .. }));
}

#[test]
fn submit_while_waiting_is_refused() {
    let mut sender = Sender::new(config(1000, 2));
    sender.submit(frame(), 0);
    let step = sender.submit(b"other".to_vec(), 1);
    assert!(matches!(step, Step::Refused { why: Refusal::Busy }));
    assert_eq!(sender.outstanding(), Some(1));
    assert_eq!(sender.next_seq(), Some(2));
    // The message in flight is untouched.
    let (seq, bytes, retry, _) = expect_transmit(sender.on_tick(1000));
    assert_eq!((seq, retry), (1, 1));
    assert_eq!(bytes, frame());
}

#[test]
fn free_sender_ignores_replies_and_ticks() {
    let mut sender = Sender::new(config(1000, 2));
    assert!(matches!(sender.on_reply(Some(1), 0), Step::Idle));
    assert!(matches!(sender.on_reply(None, 0), Step::Idle));
    assert!(matches!(sender.on_tick(u64::MAX), Step::Idle));
    assert_eq!(sender.next_seq(), Some(1));
}

#[test]
fn sequence_ids_increase_by_one() {
    let mut sender = Sender::new(config(10, 0));
    for expected in 1..=50u64 {
        assert_eq!(sender.next_seq(), Some(expected));
        let (seq, _, _, _) = expect_transmit(sender.submit(vec![expected as u8], 0));
        assert_eq!(seq, expected);
        if expected % 2 == 0 {
            assert!(matches!(sender.on_reply(Some(seq), 1), Step::Acked { .. }));
        } else {
            assert!(matches!(sender.on_tick(10), Step::Failed { .. }));
        }
    }
}

#[test]
fn deadline_saturates_at_the_end_of_the_clock() {
    let mut sender = Sender::new(config(1000, 1));
    sender.submit(frame(), u64::MAX - 10);
    assert!(matches!(sender.on_tick(u64::MAX - 1), Step::Wait { remaining_ms: 1 }));
    assert!(matches!(sender.on_tick(u64::MAX), Step::Transmit { retry: 1, .. }));
    assert!(matches!(sender.on_tick(u64::MAX), Step::Failed { seq: 1 }));
}

#[test]
fn zero_timeout_expires_at_once() {
    let mut sender = Sender::new(config(0, 1));
    let (_, _, _, wait_ms) = expect_transmit(sender.submit(frame(), 5));
    assert_eq!(wait_ms, 0);
    assert!(matches!(sender.on_tick(5), Step::Transmit { retry: 1, wait_ms: 0, .. }));
    assert!(matches!(sender.on_tick(5), Step::Failed { seq: 1 }));
}

#[test]
fn empty_frame_is_sent_as_it_is() {
    let mut sender = Sender::new(config(10, 1));
    let (_, bytes, _, _) = expect_transmit(sender.submit(Vec::new(), 0));
    assert!(bytes.is_empty());
    let (_, again, _, _) = expect_transmit(sender.on_tick(10));
    assert!(again.is_empty());
}

#[test]
fn steps_report_send_resend_and_ack_recv() {
    let mut sender = Sender::new(config(100, 1));
    let first = sender.submit(frame(), 0);
    assert_eq!(
        first.log_record(),
        Some(LogRecord { component: Component::Client, kind: EventKind::Send, seq: 1 })
    );
    let waiting = sender.on_tick(50);
    assert_eq!(waiting.log_record(), None);
    let again = sender.on_tick(100);
    assert_eq!(
        again.log_record(),
        Some(LogRecord { component: Component::Client, kind: EventKind::Resend, seq: 1 })
    );
    let acked = sender.on_reply(Some(1), 120);
    assert_eq!(
        acked.log_record(),
        Some(LogRecord { component: Component::Client, kind: EventKind::AckRecv, seq: 1 })
    );
    assert_eq!(sender.on_tick(130).log_record(), None);
    let refused = Step::Refused { why: Refusal::Exhausted };
    assert_eq!(refused.log_record(), None);
    assert_eq!(Step::Failed { seq: 4 }.log_record(), None);
}

#[test]
fn config_from_seconds() {
    assert_eq!(SenderConfig::from_secs(2, 5), config(2000, 5));
    assert_eq!(SenderConfig::from_secs(0, 0), config(0, 0));
    assert_eq!(SenderConfig::from_secs(u64::MAX / 1000, 1), config(u64::MAX / 1000 * 1000, 1));
    assert_eq!(SenderConfig::from_secs(u64::MAX / 1000 + 1, 1), config(u64::MAX, 1));
    assert_eq!(SenderConfig::from_secs(u64::MAX, u32::MAX), config(u64::MAX, u32::MAX));
}
