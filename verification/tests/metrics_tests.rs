use reliable_udp::events::{Component, EventKind};
use reliable_udp::metrics::{classify, gauge, Counter, LogLine, Metrics};
use reliable_udp::receiver::Receiver;
use reliable_udp::message::Message;
use reliable_udp::sender::{Sender, SenderConfig};
use reliable_udp::text::{bytes_eq, text_eq};

fn line(component: &str, event: &str, seq: Option<u64>) -> Option<LogLine> {
    Some(LogLine { component: component.to_string(), event: event.to_string(), seq })
}

#[test]
fn wire_names() {
    assert_eq!(Component::Client.as_str(), "client");
    assert_eq!(Component::Server.as_str(), "server");
    assert_eq!(EventKind::Send.as_str(), "send");
    assert_eq!(EventKind::Resend.as_str(), "resend");
    assert_eq!(EventKind::AckRecv.as_str(), "ack_recv");
    assert_eq!(EventKind::Recv.as_str(), "recv");
    assert_eq!(EventKind::AckSend.as_str(), "ack_send");
}

#[test]
fn classify_recognises_the_four_pairs() {
    assert_eq!(classify("client", "send"), Some(Counter::Sent));
    assert_eq!(classify("client", "ack_recv"), Some(Counter::AckReceived));
    assert_eq!(classify("server", "recv"), Some(Counter::Received));
    assert_eq!(classify("server", "ack_send"), Some(Counter::AckSent));
}

#[test]
fn classify_ignores_everything_else() {
    assert_eq!(classify("client", "resend"), None);
    assert_eq!(classify("client", "recv"), None);
    assert_eq!(classify("client", "ack_send"), None);
    assert_eq!(classify("server", "send"), None);
    assert_eq!(classify("server", "ack_recv"), None);
    assert_eq!(classify("server", "resend"), None);
    assert_eq!(classify("proxy", "send"), None);
    assert_eq!(classify("", ""), None);
    assert_eq!(classify("Client", "send"), None);
    assert_eq!(classify("client", "send "), None);
    assert_eq!(classify("client", "sen"), None);
    assert_eq!(classify("clienté", "send"), None);
    assert_eq!(classify("send", "client"), None);
}

#[test]
fn new_metrics_are_zero() {
    let m = Metrics::new();
    assert_eq!(m, Metrics { sent: 0, received: 0, ack_sent: 0, ack_received: 0 });
    for counter in [Counter::Sent, Counter::Received, Counter::AckSent, Counter::AckReceived] {
        assert_eq!(m.get(counter), 0);
    }
}

#[test]
fn record_moves_only_its_own_counter() {
    let mut m = Metrics::new();
    m.record("client", "send");
    assert_eq!(m, Metrics { sent: 1, received: 0, ack_sent: 0, ack_received: 0 });
    m.record("server", "recv");
    assert_eq!(m, Metrics { sent: 1, received: 1, ack_sent: 0, ack_received: 0 });
    m.record("server", "ack_send");
    assert_eq!(m, Metrics { sent: 1, received: 1, ack_sent: 1, ack_received: 0 });
    m.record("client", "ack_recv");
    assert_eq!(m, Metrics { sent: 1, received: 1, ack_sent: 1, ack_received: 1 });
    m.record("client", "resend");
    m.record("nobody", "nothing");
    assert_eq!(m, Metrics { sent: 1, received: 1, ack_sent: 1, ack_received: 1 });
}

#[test]
fn final_counters_equal_the_count_of_recognised_pairs() {
    let lines = vec![
        line("client", "send", Some(1)),
        None,
        line("server", "recv", Some(1)),
        line("server", "ack_send", Some(1)),
        line("client", "resend", Some(1)),
        line("server", "recv", Some(1)),
        None,
        line("server", "ack_send", Some(1)),
        line("client", "ack_recv", Some(1)),
        line("client", "send", Some(2)),
        line("relay", "send", Some(2)),
        line("client", "send", None),
        line("server", "recv", Some(2)),
        line("server", "shutdown", None),
    ];
    let mut m = Metrics::new();
    m.absorb_all(&lines);
    assert_eq!(m, Metrics { sent: 3, received: 3, ack_sent: 2, ack_received: 1 });

    let mut one_by_one = Metrics::new();
    for l in &lines {
        one_by_one.absorb(l);
    }
    assert_eq!(one_by_one, m);
}

#[test]
fn malformed_lines_alone_count_nothing() {
    let lines: Vec<Option<LogLine>> = vec![None, None, None];
    let mut m = Metrics { sent: 4, received: 3, ack_sent: 2, ack_received: 1 };
    m.absorb_all(&lines);
    assert_eq!(m, Metrics { sent: 4, received: 3, ack_sent: 2, ack_received: 1 });
    m.absorb_all(&Vec::new());
    assert_eq!(m, Metrics { sent: 4, received: 3, ack_sent: 2, ack_received: 1 });
}

#[test]
fn counters_never_decrease() {
    let lines = vec![
        line("client", "send", Some(1)),
        None,
        line("x", "y", None),
        line("server", "recv", Some(1)),
        line("client", "ack_recv", Some(1)),
        line("server", "ack_send", Some(1)),
    ];
    let mut m = Metrics::new();
    let mut before = m.snapshot();
    for l in &lines {
        m.absorb(l);
        assert!(m.sent >= before.sent);
        assert!(m.received >= before.received);
        assert!(m.ack_sent >= before.ack_sent);
        assert!(m.ack_received >= before.ack_received);
        before = m.snapshot();
    }
}

#[test]
fn counter_stops_at_its_limit() {
    let mut m = Metrics { sent: u64::MAX - 1, received: u64::MAX, ack_sent: 0, ack_received: 0 };
    m.bump(Counter::Sent);
    assert_eq!(m.sent, u64::MAX);
    m.bump(Counter::Sent);
    assert_eq!(m.sent, u64::MAX);
    m.record("server", "recv");
    assert_eq!(m.received, u64::MAX);
    assert_eq!(m.ack_sent, 0);
    assert_eq!(m.ack_received, 0);
}

#[test]
fn snapshot_is_a_copy() {
    let mut m = Metrics::new();
    m.bump(Counter::AckSent);
    let copy = m.snapshot();
    m.bump(Counter::AckSent);
    assert_eq!(copy.ack_sent, 1);
    assert_eq!(m.ack_sent, 2);
    assert_eq!(copy.get(Counter::AckSent), 1);
}

#[test]
fn gauge_caps_at_255() {
    assert_eq!(gauge(0), 0);
    assert_eq!(gauge(1), 1);
    assert_eq!(gauge(254), 254);
    assert_eq!(gauge(255), 255);
    assert_eq!(gauge(256), 255);
    assert_eq!(gauge(u64::MAX), 255);
}

#[test]
fn text_and_bytes_compare_by_content() {
    assert!(text_eq("", ""));
    assert!(text_eq("client", "client"));
    assert!(!text_eq("client", "clienT"));
    assert!(!text_eq("client", "clien"));
    assert!(!text_eq("", "a"));
    assert!(text_eq("héllo", "héllo"));
    assert!(!text_eq("héllo", "hello"));
    assert!(bytes_eq(&[], &[]));
    assert!(bytes_eq(&[1, 2, 3], &[1, 2, 3]));
    assert!(!bytes_eq(&[1, 2, 3], &[1, 2, 4]));
    assert!(!bytes_eq(&[1, 2, 3], &[1, 2]));
    assert!(!bytes_eq(&[0], &[]));
}

#[test]
fn lossless_exchange_counts_one_of_each() {
    // One message, sent once, received once, acknowledged once.
    let mut sender = Sender::new(SenderConfig { timeout_ms: 1000, max_retries: 3 });
    let mut receiver = Receiver::new();
    let mut metrics = Metrics::new();

    let first = sender.submit(b"frame".to_vec(), 0);
    let sent = first.log_record().unwrap();
    metrics.record(sent.component.as_str(), sent.kind.as_str());

    let message = Message { payload: "hi".to_string(), seq: sent.seq };
    let receipt = receiver.handle_datagram(Some(message));
    let arrived = receipt.arrival_record().unwrap();
    metrics.record(arrived.component.as_str(), arrived.kind.as_str());
    let replied = receipt.reply_record().unwrap();
    metrics.record(replied.component.as_str(), replied.kind.as_str());

    let done = sender.on_reply(receipt.ack().map(|ack| ack.seq), 5);
    let acked = done.log_record().unwrap();
    metrics.record(acked.component.as_str(), acked.kind.as_str());

    assert_eq!(metrics, Metrics { sent: 1, received: 1, ack_sent: 1, ack_received: 1 });
}

#[test]
fn retransmissions_are_not_counted_as_sent() {
    let mut sender = Sender::new(SenderConfig { timeout_ms: 10, max_retries: 2 });
    let mut metrics = Metrics::new();
    let mut steps = vec![sender.submit(b"frame".to_vec(), 0)];
    steps.push(sender.on_tick(10));
    steps.push(sender.on_tick(20));
    steps.push(sender.on_tick(30));
    for step in &steps {
        if let Some(record) = step.log_record() {
            metrics.record(record.component.as_str(), record.kind.as_str());
        }
    }
    assert_eq!(metrics, Metrics { sent: 1, received: 0, ack_sent: 0, ack_received: 0 });
}
