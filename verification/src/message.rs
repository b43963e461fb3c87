//! The two records of the protocol, decoded.

use vstd::prelude::*;

verus! {

/// A payload under its sequence id.
#[derive(Debug)]
pub struct Message {
    pub payload: String,
    pub seq: u64,
}

/// The acknowledgment of the message with the same sequence id.
#[derive(Clone, Copy, Debug, PartialEq, Eq, Structural)]
pub struct Ack {
    pub seq: u64,
}

} // verus!
