//! Stop-and-wait reliable delivery over unreliable datagrams.
//!
//! The crate holds the decision logic of four cooperating parts:
//!
//! * [`sender`]: one message in flight, retransmitted on expiry of a wait
//!   window up to a configured bound;
//! * [`receiver`]: acknowledges every decoded message and suppresses the
//!   payload of repeated sequence ids;
//! * [`relay`]: an impairment relay that drops and delays datagrams
//!   independently per direction and remembers where replies go, under the
//!   policy of [`impairment`] with chances made by [`probability`];
//! * [`metrics`]: tallies the lifecycle [`events`] of sender and receiver
//!   into four counters.
//!
//! Sockets, timers, encodings and the terminal live outside this crate. The
//! parts here take plain values as events and return plain values as
//! instructions, so that each rule is a contract that is proved of the code.
//! [`protocol`] states what follows for whole runs. The one thing taken on
//! trust is the pseudo-random generator, in [`rng`].

pub mod endpoint;
pub mod events;
pub mod impairment;
pub mod message;
pub mod metrics;
pub mod probability;
pub mod protocol;
pub mod receiver;
pub mod relay;
pub mod rng;
pub mod sender;
pub mod text;
