//! The impairment relay between one client and one upstream server.
//!
//! Each direction of the relay is a [`Lane`]: an [`Impairment`] and a
//! pseudo-random generator of its own, seeded once when the lane is made and
//! advanced from datagram to datagram. The two lanes share one
//! [`ReturnPath`], which remembers the endpoint of the client heard last.
//!
//! A lane neither receives nor sends. It is told of an arrival and answers
//! with a [`Transit`]: discard the datagram, or forward these bytes, after
//! this long. Replies from the server are routed when they leave, by
//! [`ReturnPath::route`], not when they arrive.

use crate::endpoint::Endpoint;
use crate::impairment::{Draws, Fate, Impairment};
use crate::probability::{law_probability_extremes, threshold_of, ONE_BITS, ZERO_BITS};
use crate::rng::{draw_between, next_word, seeded};
use rand::rngs::StdRng;
use vstd::prelude::*;
use vstd::slice::{slice_subrange, slice_to_vec};

verus! {

/// The size in bytes of the buffer that a lane receives into. A longer
/// datagram reaches the lane cut to this length.
pub const RECEIVE_BUFFER: usize = 2048;

/// The datagram that a receive call left in `buffer`, having reported
/// `received` bytes: the first `received` bytes of the buffer, and the whole
/// buffer if more were reported than it holds.
pub fn datagram_of(buffer: &[u8], received: usize) -> (payload: Vec<u8>)
    ensures
        payload@ == buffer@.take(
            if received <= buffer@.len() {
                received as int
            } else {
                buffer@.len() as int
            },
        ),
{
    let len = if received <= buffer.len() {
        received
    } else {
        buffer.len()
    };
    slice_to_vec(slice_subrange(buffer, 0, len))
}

/// What the relay does with a datagram that it has received.
#[derive(Debug)]
pub enum Transit {
    /// Nothing: the datagram goes no further.
    Discard,
    /// Send `payload` on, after `hold_ms` milliseconds if there are any.
    Forward { payload: Vec<u8>, hold_ms: Option<u64> },
}

impl Transit {
    /// Whether this is what `fate` asks for a datagram of the given bytes:
    /// nothing when it is dropped, else the same bytes with the fate's hold.
    pub open spec fn carries(self, fate: Fate, bytes: Seq<u8>) -> bool {
        match fate {
            Fate::Drop => self is Discard,
            Fate::Pass => self matches Transit::Forward { payload, hold_ms } && payload@ == bytes
                && hold_ms is None,
            Fate::Hold { ms } => self matches Transit::Forward { payload, hold_ms } && payload@
                == bytes && hold_ms == Some(ms),
        }
    }

    /// Carries out a fate on a datagram.
    pub fn of(fate: Fate, payload: Vec<u8>) -> (transit: Transit)
        ensures
            transit.carries(fate, payload@),
    {
        match fate {
            Fate::Drop => Transit::Discard,
            Fate::Pass => Transit::Forward { payload, hold_ms: None },
            Fate::Hold { ms } => Transit::Forward { payload, hold_ms: Some(ms) },
        }
    }
}

/// Whether `transit` is a way in which a lane of the given policy may treat
/// a datagram of the given bytes: the fate of some draws, with a hold time
/// from the window, carried out on those bytes.
pub open spec fn impaired(policy: Impairment, transit: Transit, bytes: Seq<u8>) -> bool {
    exists|draws: Draws|
        policy.window.admits(draws.span_ms) && transit.carries(
            #[trigger] policy.fate_of(draws),
            bytes,
        )
}

/// The endpoint that replies are sent to: the client heard last, if any.
#[derive(Clone, Copy, Debug)]
pub struct ReturnPath {
    last_client: Option<Endpoint>,
}

impl View for ReturnPath {
    type V = Option<Endpoint>;

    closed spec fn view(&self) -> Option<Endpoint> {
        self.last_client
    }
}

impl ReturnPath {
    /// The path of a relay that has heard no client yet.
    pub fn new() -> (path: ReturnPath)
        ensures
            path@ is None,
    {
        ReturnPath { last_client: None }
    }

    /// Notes that a datagram from the client at `from` has arrived. Replies
    /// go there from now on.
    pub fn observe(&mut self, from: Endpoint)
        ensures
            final(self)@ == Some(from),
            final(self)@ == path_step(old(self)@, Arrival::Client { from }),
    {
        self.last_client = Some(from);
    }

    /// Where a reply goes now, or `None` if it can go nowhere.
    pub fn route(&self) -> (to: Option<Endpoint>)
        ensures
            to == self@,
    {
        self.last_client
    }
}

/// One direction of the relay.
pub struct Lane {
    policy: Impairment,
    rng: StdRng,
}

impl View for Lane {
    type V = Impairment;

    closed spec fn view(&self) -> Impairment {
        self.policy
    }
}

impl Lane {
    /// A lane with the given policy, whose generator starts from `seed`.
    pub fn new(policy: Impairment, seed: u64) -> (lane: Lane)
        ensures
            lane@ == policy,
    {
        Lane { policy, rng: seeded(seed) }
    }

    /// The lane's policy.
    pub fn policy(&self) -> (policy: Impairment)
        ensures
            policy == self@,
    {
        self.policy
    }

    /// Draws a hold time from the policy's window. A window of one value
    /// costs no draw.
    fn draw_span(&mut self) -> (ms: u64)
        ensures
            final(self)@ == old(self)@,
            old(self)@.window.admits(ms),
    {
        let low = self.policy.window.lower();
        let high = self.policy.window.upper();
        if low == high {
            low
        } else {
            draw_between(&mut self.rng, low, high)
        }
    }

    /// Decides the next datagram.
    ///
    /// The lane draws only what the decision needs, in this order: a word for
    /// the drop test; if that misses, a word for the delay test; if that
    /// hits, a hold time from the window. The fate is the one that
    /// [`Impairment::fate_of`] gives for those draws.
    pub fn judge(&mut self) -> (fate: Fate)
        ensures
            final(self)@ == old(self)@,
            exists|draws: Draws|
                old(self)@.window.admits(draws.span_ms) && fate == #[trigger] old(self)@.fate_of(
                    draws,
                ),
            old(self)@.drop.is_certain() ==> fate == Fate::Drop,
            old(self)@.drop.is_never() ==> fate != Fate::Drop,
            old(self)@.delay.is_never() ==> !(fate is Hold),
            fate matches Fate::Hold { ms } ==> old(self)@.window.low() <= ms
                <= old(self)@.window.high(),
    {
        let mut draws = Draws {
            drop_word: next_word(&mut self.rng),
            delay_word: 0,
            span_ms: self.policy.window.lower(),
        };
        if !self.policy.drop.hits(draws.drop_word) {
            draws.delay_word = next_word(&mut self.rng);
            if self.policy.delay.hits(draws.delay_word) {
                draws.span_ms = self.draw_span();
            }
        }
        let fate = self.policy.decide(draws);
        proof {
            assert(fate == old(self)@.fate_of(draws));
            crate::impairment::law_zero_chances(old(self)@, draws);
            crate::impairment::law_hold_within_window(old(self)@, draws);
            if old(self)@.drop.is_certain() {
                crate::impairment::law_certain_drop(old(self)@, draws);
            }
        }
        fate
    }

    /// Takes in a datagram that the client at `from` sent towards the
    /// server.
    ///
    /// The client is noted as the one to reply to, whatever becomes of the
    /// datagram. The datagram is then dropped, passed or held as
    /// [`Lane::judge`] decides, its bytes untouched.
    pub fn admit_client(
        &mut self,
        path: &mut ReturnPath,
        from: Endpoint,
        payload: Vec<u8>,
    ) -> (transit: Transit)
        ensures
            final(self)@ == old(self)@,
            final(path)@ == Some(from),
            final(path)@ == path_step(old(path)@, Arrival::Client { from }),
            impaired(old(self)@, transit, payload@),
            old(self)@.drop.is_certain() ==> transit is Discard,
            old(self)@.drop.is_never() ==> transit is Forward,
            transit matches Transit::Forward { payload: sent, hold_ms } ==> {
                &&& sent@ == payload@
                &&& old(self)@.delay.is_never() ==> hold_ms is None
                &&& hold_ms matches Some(ms) ==> old(self)@.window.low() <= ms
                    <= old(self)@.window.high()
            },
    {
        path.observe(from);
        let fate = self.judge();
        Transit::of(fate, payload)
    }

    /// Takes in a datagram that arrived from `from` on the server side.
    ///
    /// A datagram that did not come from `upstream` is discarded and costs
    /// no draw. One that did is dropped, passed or held as [`Lane::judge`]
    /// decides, its bytes untouched. Where it goes is not settled here: ask
    /// [`ReturnPath::route`] when the hold is over.
    pub fn admit_server(
        &mut self,
        from: Endpoint,
        upstream: Endpoint,
        payload: Vec<u8>,
    ) -> (transit: Transit)
        ensures
            final(self)@ == old(self)@,
            from != upstream ==> transit is Discard,
            from == upstream ==> impaired(old(self)@, transit, payload@),
            old(self)@.drop.is_certain() ==> transit is Discard,
            from == upstream && old(self)@.drop.is_never() ==> transit is Forward,
            transit matches Transit::Forward { payload: sent, hold_ms } ==> {
                &&& sent@ == payload@
                &&& old(self)@.delay.is_never() ==> hold_ms is None
                &&& hold_ms matches Some(ms) ==> old(self)@.window.low() <= ms
                    <= old(self)@.window.high()
            },
    {
        if !from.same(&upstream) {
            return Transit::Discard;
        }
        let fate = self.judge();
        Transit::of(fate, payload)
    }
}

/// An arrival at the relay, as far as the return path is concerned.
pub enum Arrival {
    /// A datagram from the client at `from`.
    Client { from: Endpoint },
    /// A datagram from the server side.
    Server,
}

/// What the return path holds after an arrival, having held `slot` before.
/// Only traffic from a client changes it.
pub open spec fn path_step(slot: Option<Endpoint>, arrival: Arrival) -> Option<Endpoint> {
    match arrival {
        Arrival::Client { from } => Some(from),
        Arrival::Server => slot,
    }
}

/// What the return path holds after a run of arrivals, first to last.
pub open spec fn path_after(slot: Option<Endpoint>, arrivals: Seq<Arrival>) -> Option<Endpoint>
    decreases arrivals.len(),
{
    if arrivals.len() == 0 {
        slot
    } else {
        path_step(path_after(slot, arrivals.drop_last()), arrivals.last())
    }
}

/// The bytes that a run of transits sends on, in order.
pub open spec fn forwarded(transits: Seq<Transit>) -> Seq<Seq<u8>>
    decreases transits.len(),
{
    if transits.len() == 0 {
        Seq::empty()
    } else {
        match transits.last() {
            Transit::Discard => forwarded(transits.drop_last()),
            Transit::Forward { payload, .. } => forwarded(transits.drop_last()).push(payload@),
        }
    }
}

/// Whether the transit sends the given bytes on at once.
pub open spec fn forwards_at_once(transit: Transit, bytes: Seq<u8>) -> bool {
    transit matches Transit::Forward { payload, hold_ms } && payload@ == bytes && hold_ms is None
}

/// Whether `transits` is a way in which a lane of the given policy may treat
/// the datagrams `packets`, one transit for each.
pub open spec fn run_impaired(
    policy: Impairment,
    packets: Seq<Seq<u8>>,
    transits: Seq<Transit>,
) -> bool {
    &&& transits.len() == packets.len()
    &&& forall|i: int|
        0 <= i < packets.len() ==> impaired(policy, #[trigger] transits[i], packets[i])
}

/// A lane whose drop chance is one discards the datagram.
pub proof fn law_certain_drop_discards(policy: Impairment, transit: Transit, bytes: Seq<u8>)
    requires
        impaired(policy, transit, bytes),
        policy.drop.is_certain(),
    ensures
        transit is Discard,
{
    let draws = choose|draws: Draws|
        policy.window.admits(draws.span_ms) && transit.carries(
            #[trigger] policy.fate_of(draws),
            bytes,
        );
    crate::impairment::law_certain_drop(policy, draws);
}

/// A lane whose drop and delay chances are zero forwards the datagram at
/// once.
pub proof fn law_transparent_forwards(policy: Impairment, transit: Transit, bytes: Seq<u8>)
    requires
        impaired(policy, transit, bytes),
        policy.drop.is_never(),
        policy.delay.is_never(),
    ensures
        forwards_at_once(transit, bytes),
{
    let draws = choose|draws: Draws|
        policy.window.admits(draws.span_ms) && transit.carries(
            #[trigger] policy.fate_of(draws),
            bytes,
        );
    crate::impairment::law_transparent(policy, draws);
}

/// What a lane forwards is the datagram as it came: the same bytes, and so
/// the same length. If it holds the datagram, then for a time within the
/// policy's window, bounds included, and for exactly the window's one value
/// where its bounds meet.
pub proof fn law_forward_as_received(policy: Impairment, transit: Transit, bytes: Seq<u8>)
    requires
        impaired(policy, transit, bytes),
    ensures
        transit matches Transit::Forward { payload, hold_ms } ==> {
            &&& payload@ == bytes
            &&& payload@.len() == bytes.len()
            &&& hold_ms matches Some(ms) ==> {
                &&& policy.window.low() <= ms <= policy.window.high()
                &&& policy.window.is_fixed() ==> ms == policy.window.min_ms
            }
        },
{
    let draws = choose|draws: Draws|
        policy.window.admits(draws.span_ms) && transit.carries(
            #[trigger] policy.fate_of(draws),
            bytes,
        );
    crate::impairment::law_hold_within_window(policy, draws);
}

/// Of any number of datagrams that cross a lane whose drop chance is one,
/// none is sent on.
pub proof fn law_certain_drop_forwards_nothing(
    policy: Impairment,
    packets: Seq<Seq<u8>>,
    transits: Seq<Transit>,
)
    requires
        run_impaired(policy, packets, transits),
        policy.drop.is_certain(),
    ensures
        forwarded(transits).len() == 0,
    decreases transits.len(),
{
    if transits.len() > 0 {
        let last = transits.len() - 1;
        law_certain_drop_discards(policy, transits[last], packets[last]);
        assert(run_impaired(policy, packets.drop_last(), transits.drop_last())) by {
            assert forall|i: int| 0 <= i < packets.drop_last().len() implies impaired(
                policy,
                #[trigger] transits.drop_last()[i],
                packets.drop_last()[i],
            ) by {
                assert(transits.drop_last()[i] == transits[i]);
            }
        }
        law_certain_drop_forwards_nothing(policy, packets.drop_last(), transits.drop_last());
    }
}

/// All the datagrams that cross a lane whose drop and delay chances are zero
/// are sent on at once, each with the bytes and the length it came with, in
/// the order of arrival.
pub proof fn law_transparent_forwards_everything(
    policy: Impairment,
    packets: Seq<Seq<u8>>,
    transits: Seq<Transit>,
)
    requires
        run_impaired(policy, packets, transits),
        policy.drop.is_never(),
        policy.delay.is_never(),
    ensures
        forwarded(transits) == packets,
        forall|i: int|
            0 <= i < transits.len() ==> forwards_at_once(#[trigger] transits[i], packets[i]),
    decreases transits.len(),
{
    assert forall|i: int| 0 <= i < transits.len() implies forwards_at_once(
        #[trigger] transits[i],
        packets[i],
    ) by {
        law_transparent_forwards(policy, transits[i], packets[i]);
    }
    if transits.len() > 0 {
        assert(run_impaired(policy, packets.drop_last(), transits.drop_last())) by {
            assert forall|i: int| 0 <= i < packets.drop_last().len() implies impaired(
                policy,
                #[trigger] transits.drop_last()[i],
                packets.drop_last()[i],
            ) by {
                assert(transits.drop_last()[i] == transits[i]);
            }
        }
        law_transparent_forwards_everything(policy, packets.drop_last(), transits.drop_last());
        let last = transits.len() - 1;
        assert(transits.last() == transits[last]);
        assert(packets.drop_last().push(packets[last]) =~= packets);
    } else {
        assert(forwarded(transits) =~= packets);
    }
}

/// With a drop probability of one, none of any number of datagrams that
/// cross a lane reaches the far side. With a drop probability and a delay
/// probability of zero, all of them do, at once, byte for byte and in the
/// order of arrival.
pub proof fn law_probabilities_one_and_zero(
    policy: Impairment,
    packets: Seq<Seq<u8>>,
    transits: Seq<Transit>,
)
    requires
        run_impaired(policy, packets, transits),
    ensures
        policy.drop.threshold == threshold_of(ONE_BITS) ==> forwarded(transits).len() == 0,
        policy.drop.threshold == threshold_of(ZERO_BITS) && policy.delay.threshold == threshold_of(
            ZERO_BITS,
        ) ==> forwarded(transits) == packets && forall|i: int|
            0 <= i < transits.len() ==> forwards_at_once(#[trigger] transits[i], packets[i]),
{
    law_probability_extremes();
    if policy.drop.threshold == threshold_of(ONE_BITS) {
        law_certain_drop_forwards_nothing(policy, packets, transits);
    }
    if policy.drop.threshold == threshold_of(ZERO_BITS) && policy.delay.threshold == threshold_of(
        ZERO_BITS,
    ) {
        law_transparent_forwards_everything(policy, packets, transits);
    }
}

/// Until a client has been heard, replies can go nowhere.
pub proof fn law_no_client_no_route(arrivals: Seq<Arrival>)
    requires
        forall|i: int| 0 <= i < arrivals.len() ==> arrivals[i] is Server,
    ensures
        path_after(None, arrivals) is None,
    decreases arrivals.len(),
{
    if arrivals.len() > 0 {
        let earlier = arrivals.drop_last();
        assert forall|i: int| 0 <= i < earlier.len() implies earlier[i] is Server by {
            assert(earlier[i] == arrivals[i]);
        }
        law_no_client_no_route(earlier);
    }
}

/// Once the client at `client` has been heard, replies go there for as long
/// as no client at another endpoint is heard.
pub proof fn law_replies_follow_last_client(
    slot: Option<Endpoint>,
    arrivals: Seq<Arrival>,
    heard: int,
    client: Endpoint,
)
    requires
        0 <= heard < arrivals.len(),
        arrivals[heard] == (Arrival::Client { from: client }),
        forall|i: int|
            heard < i < arrivals.len() ==> path_step(Some(client), arrivals[i]) == Some(client),
    ensures
        path_after(slot, arrivals) == Some(client),
    decreases arrivals.len(),
{
    if heard < arrivals.len() - 1 {
        let earlier = arrivals.drop_last();
        assert(earlier[heard] == arrivals[heard]);
        assert forall|i: int| heard < i < earlier.len() implies path_step(
            Some(client),
            earlier[i],
        ) == Some(client) by {
            assert(earlier[i] == arrivals[i]);
        }
        law_replies_follow_last_client(slot, earlier, heard, client);
    }
}

} // verus!
