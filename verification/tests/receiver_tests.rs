use reliable_udp::events::{Component, EventKind, LogRecord};
use reliable_udp::message::{Ack, Message};
use reliable_udp::receiver::{Receipt, Receiver};

fn message(seq: u64, payload: &str) -> Option<Message> {
    Some(Message { payload: payload.to_string(), seq })
}

#[test]
fn new_receiver_has_seen_nothing() {
    let receiver = Receiver::new();
    assert!(!receiver.has_seen(0));
    assert!(!receiver.has_seen(1));
    assert!(!receiver.has_seen(u64::MAX));
}

#[test]
fn first_receipt_surfaces_the_payload() {
    let mut receiver = Receiver::new();
    match receiver.handle_datagram(message(1, "hello")) {
        Receipt::Fresh { ack, payload } => {
            assert_eq!(ack, Ack { seq: 1 });
            assert_eq!(payload, "hello");
        }
        other => panic!("expected a fresh message, got {:?}", other),
    }
    assert!(receiver.has_seen(1));
}

#[test]
fn second_receipt_is_acked_but_withheld() {
    let mut receiver = Receiver::new();
    let first = receiver.handle_datagram(message(7, "once"));
    let second = receiver.handle_datagram(message(7, "once"));
    assert!(matches!(first, Receipt::Fresh { ack: Ack { seq: 7 }, .. }));
    assert!(matches!(second, Receipt::Duplicate { ack: Ack { seq: 7 } }));
    assert_eq!(first.ack(), Some(Ack { seq: 7 }));
    assert_eq!(second.ack(), Some(Ack { seq: 7 }));
}

#[test]
fn duplicate_is_told_by_id_not_by_payload() {
    let mut receiver = Receiver::new();
    receiver.handle_datagram(message(3, "a"));
    let again = receiver.handle_datagram(message(3, "something else"));
    assert!(matches!(again, Receipt::Duplicate { ack: Ack { seq: 3 } }));
    let other = receiver.handle_datagram(message(4, "a"));
    assert!(matches!(other, Receipt::Fresh { ack: Ack { seq: 4 }, .. }));
}

#[test]
fn duplicate_is_recognised_after_other_traffic() {
    let mut receiver = Receiver::new();
    receiver.handle_datagram(message(1, "one"));
    for seq in 2..100u64 {
        assert!(matches!(receiver.handle_datagram(message(seq, "x")), Receipt::Fresh { .. }));
    }
    receiver.handle_datagram(None);
    assert!(matches!(
        receiver.handle_datagram(message(1, "one")),
        Receipt::Duplicate { ack: Ack { seq: 1 } }
    ));
    assert!(matches!(
        receiver.handle_datagram(message(57, "x")),
        Receipt::Duplicate { ack: Ack { seq: 57 } }
    ));
}

#[test]
fn undecodable_datagram_is_discarded_without_trace() {
    let mut receiver = Receiver::new();
    let receipt = receiver.handle_datagram(None);
    assert!(matches!(receipt, Receipt::Discarded));
    assert_eq!(receipt.ack(), None);
    assert_eq!(receipt.arrival_record(), None);
    assert_eq!(receipt.reply_record(), None);
    assert!(!receiver.has_seen(0));
    assert!(matches!(receiver.handle_datagram(message(0, "zero")), Receipt::Fresh { .. }));
}

#[test]
fn ids_need_not_come_in_order() {
    let mut receiver = Receiver::new();
    assert!(matches!(receiver.handle_datagram(message(u64::MAX, "last")), Receipt::Fresh { .. }));
    assert!(matches!(receiver.handle_datagram(message(0, "zero")), Receipt::Fresh { .. }));
    let again = receiver.handle_datagram(message(u64::MAX, "last"));
    assert!(matches!(again, Receipt::Duplicate { .. }));
    assert!(receiver.has_seen(u64::MAX));
    assert!(receiver.has_seen(0));
    assert!(!receiver.has_seen(1));
}

#[test]
fn receipts_report_recv_and_ack_send() {
    let mut receiver = Receiver::new();
    let fresh = receiver.handle_datagram(message(5, "p"));
    let duplicate = receiver.handle_datagram(message(5, "p"));
    for receipt in [fresh, duplicate] {
        assert_eq!(
            receipt.arrival_record(),
            Some(LogRecord { component: Component::Server, kind: EventKind::Recv, seq: 5 })
        );
        assert_eq!(
            receipt.reply_record(),
            Some(LogRecord { component: Component::Server, kind: EventKind::AckSend, seq: 5 })
        );
    }
}

#[test]
fn empty_payload_is_a_message_like_any_other() {
    let mut receiver = Receiver::new();
    match receiver.handle_datagram(message(1, "")) {
        Receipt::Fresh { ack, payload } => {
            assert_eq!(ack.seq, 1);
            assert_eq!(payload, "");
        }
        other => panic!("expected a fresh message, got {:?}", other),
    }
}
