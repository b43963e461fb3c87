//! Lifecycle events: what the sender and the receiver report of themselves.
//!
//! An event names the component that reports, what happened, and the
//! sequence id it happened to. On the side channel the component and the
//! kind travel as the short names given here.

use vstd::prelude::*;

verus! {

/// The part of the protocol that reports an event.
#[derive(Clone, Copy, Debug, PartialEq, Eq, Structural)]
pub enum Component {
    /// The sender.
    Client,
    /// The receiver.
    Server,
}

/// What happened.
#[derive(Clone, Copy, Debug, PartialEq, Eq, Structural)]
pub enum EventKind {
    /// A message was transmitted for the first time.
    Send,
    /// A message was transmitted again.
    Resend,
    /// The acknowledgment of the outstanding message came in.
    AckRecv,
    /// A message was received and decoded.
    Recv,
    /// An acknowledgment was sent.
    AckSend,
}

impl Component {
    /// The component's name on the side channel.
    pub open spec fn name(self) -> Seq<char> {
        match self {
            Component::Client => "client"@,
            Component::Server => "server"@,
        }
    }

    /// The component's name on the side channel.
    pub fn as_str(self) -> (name: &'static str)
        ensures
            name@ == self.name(),
    {
        match self {
            Component::Client => "client",
            Component::Server => "server",
        }
    }
}

impl EventKind {
    /// The kind's name on the side channel.
    pub open spec fn name(self) -> Seq<char> {
        match self {
            EventKind::Send => "send"@,
            EventKind::Resend => "resend"@,
            EventKind::AckRecv => "ack_recv"@,
            EventKind::Recv => "recv"@,
            EventKind::AckSend => "ack_send"@,
        }
    }

    /// The kind's name on the side channel.
    pub fn as_str(self) -> (name: &'static str)
        ensures
            name@ == self.name(),
    {
        match self {
            EventKind::Send => "send",
            EventKind::Resend => "resend",
            EventKind::AckRecv => "ack_recv",
            EventKind::Recv => "recv",
            EventKind::AckSend => "ack_send",
        }
    }
}

/// The two components have different names, and so have any two kinds of
/// event.
pub proof fn lemma_names_differ()
    ensures
        Component::Client.name() != Component::Server.name(),
        EventKind::Send.name() != EventKind::Resend.name(),
        EventKind::Send.name() != EventKind::AckRecv.name(),
        EventKind::Send.name() != EventKind::Recv.name(),
        EventKind::Send.name() != EventKind::AckSend.name(),
        EventKind::Resend.name() != EventKind::AckRecv.name(),
        EventKind::Resend.name() != EventKind::Recv.name(),
        EventKind::Resend.name() != EventKind::AckSend.name(),
        EventKind::AckRecv.name() != EventKind::Recv.name(),
        EventKind::AckRecv.name() != EventKind::AckSend.name(),
        EventKind::Recv.name() != EventKind::AckSend.name(),
{
    reveal_strlit("client");
    reveal_strlit("server");
    reveal_strlit("send");
    reveal_strlit("resend");
    reveal_strlit("ack_recv");
    reveal_strlit("recv");
    reveal_strlit("ack_send");
    assert("client"@[0] != "server"@[0]);
    assert("send"@.len() == 4 && "resend"@.len() == 6 && "ack_recv"@.len() == 8);
    assert("recv"@.len() == 4 && "ack_send"@.len() == 8);
    assert("send"@[0] != "recv"@[0]);
    assert("ack_recv"@[4] != "ack_send"@[4]);
}

/// One event, ready to be stamped with the time and written out.
#[derive(Clone, Copy, Debug, PartialEq, Eq, Structural)]
pub struct LogRecord {
    pub component: Component,
    pub kind: EventKind,
    pub seq: u64,
}

} // verus!
