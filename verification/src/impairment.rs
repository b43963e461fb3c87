//! The impairment policy of one relay direction: whether a datagram is
//! dropped, passed on at once, or held back for a while.
//!
//! A policy is decided from three draws. The first two are 64-bit words of
//! which the upper 53 bits count: a [`Chance`] is hit when those bits, read
//! as a number below `2^53`, fall under its threshold. A chance with
//! threshold `t` is therefore hit with probability `t / 2^53`. The third draw
//! is a hold time from the policy's [`DelayWindow`].
//!
//! [`Chance::from_probability_bits`] makes the chance of a given
//! probability.

use vstd::prelude::*;

verus! {

/// The number of equally likely values of a unit draw, `2^53`.
pub const UNIT: u64 = 0x20_0000_0000_0000;

/// The part of a 64-bit word that a chance is tested against: its upper 53
/// bits.
pub open spec fn unit_draw(word: u64) -> u64 {
    word >> 11
}

/// Every unit draw lies below [`UNIT`].
pub proof fn lemma_unit_draw_below_unit(word: u64)
    ensures
        unit_draw(word) < UNIT,
{
    assert((word >> 11) < 0x20_0000_0000_0000u64) by (bit_vector);
}

/// A probability, held as the number of unit draws that hit.
#[derive(Clone, Copy, Debug, PartialEq, Eq, Structural)]
pub struct Chance {
    /// A draw hits when it is below this. From [`UNIT`] on every draw hits.
    pub threshold: u64,
}

impl Chance {
    /// The chance that no draw hits: probability zero.
    pub fn never() -> (chance: Chance)
        ensures
            chance.threshold == 0,
            chance.is_never(),
    {
        Chance { threshold: 0 }
    }

    /// The chance that every draw hits: probability one.
    pub fn certain() -> (chance: Chance)
        ensures
            chance.threshold == UNIT,
            chance.is_certain(),
    {
        Chance { threshold: UNIT }
    }

    /// The chance that hits `threshold` draws out of [`UNIT`]. A threshold
    /// above `UNIT` is taken as `UNIT`.
    pub fn from_threshold(threshold: u64) -> (chance: Chance)
        ensures
            chance.threshold == if threshold <= UNIT { threshold } else { UNIT },
            forall|word: u64| chance.hit_by(word) == (Chance { threshold }).hit_by(word),
    {
        proof {
            assert forall|word: u64|
                (unit_draw(word) < if threshold <= UNIT { threshold } else { UNIT })
                    == (unit_draw(word) < threshold) by {
                lemma_unit_draw_below_unit(word);
            }
        }
        if threshold <= UNIT {
            Chance { threshold }
        } else {
            Chance { threshold: UNIT }
        }
    }

    /// Whether no draw hits.
    pub open spec fn is_never(self) -> bool {
        self.threshold == 0
    }

    /// Whether every draw hits.
    pub open spec fn is_certain(self) -> bool {
        self.threshold >= UNIT
    }

    /// Whether the draw taken from `word` hits.
    pub open spec fn hit_by(self, word: u64) -> bool {
        unit_draw(word) < self.threshold
    }

    /// Tests the draw taken from `word`.
    pub fn hits(&self, word: u64) -> (hit: bool)
        ensures
            hit == self.hit_by(word),
    {
        (word >> 11) < self.threshold
    }

    /// A chance of probability one is hit by every word, one of probability
    /// zero by none.
    pub proof fn lemma_extremes(self, word: u64)
        ensures
            self.is_certain() ==> self.hit_by(word),
            self.is_never() ==> !self.hit_by(word),
    {
        lemma_unit_draw_below_unit(word);
    }
}

/// The bounds, in milliseconds, between which a hold time is drawn.
///
/// A maximum below the minimum counts as the minimum, so the window is never
/// empty.
#[derive(Clone, Copy, Debug, PartialEq, Eq, Structural)]
pub struct DelayWindow {
    pub min_ms: u64,
    pub max_ms: u64,
}

impl DelayWindow {
    /// The shortest hold.
    pub open spec fn low(self) -> u64 {
        self.min_ms
    }

    /// The longest hold.
    pub open spec fn high(self) -> u64 {
        if self.max_ms >= self.min_ms {
            self.max_ms
        } else {
            self.min_ms
        }
    }

    /// Whether `ms` lies in the window, bounds included.
    pub open spec fn admits(self, ms: u64) -> bool {
        self.low() <= ms <= self.high()
    }

    /// Whether the window holds a single value.
    pub open spec fn is_fixed(self) -> bool {
        self.low() == self.high()
    }

    /// The value of the window nearest to `ms`.
    pub open spec fn nearest(self, ms: u64) -> u64 {
        if ms < self.low() {
            self.low()
        } else if ms > self.high() {
            self.high()
        } else {
            ms
        }
    }

    /// The shortest hold.
    pub fn lower(&self) -> (ms: u64)
        ensures
            ms == self.low(),
    {
        self.min_ms
    }

    /// The longest hold.
    pub fn upper(&self) -> (ms: u64)
        ensures
            ms == self.high(),
    {
        if self.max_ms >= self.min_ms {
            self.max_ms
        } else {
            self.min_ms
        }
    }

    /// Brings `ms` into the window.
    pub fn clamp(&self, ms: u64) -> (held: u64)
        ensures
            held == self.nearest(ms),
            self.admits(held),
            self.admits(ms) ==> held == ms,
    {
        let low = self.lower();
        let high = self.upper();
        if ms < low {
            low
        } else if ms > high {
            high
        } else {
            ms
        }
    }
}

/// What becomes of one datagram.
#[derive(Clone, Copy, Debug, PartialEq, Eq, Structural)]
pub enum Fate {
    /// It is discarded.
    Drop,
    /// It is forwarded at once.
    Pass,
    /// It is forwarded after `ms` milliseconds.
    Hold { ms: u64 },
}

/// The draws that decide one datagram.
#[derive(Clone, Copy, Debug, PartialEq, Eq, Structural)]
pub struct Draws {
    /// Tested against the drop chance.
    pub drop_word: u64,
    /// Tested against the delay chance, if the datagram is not dropped.
    pub delay_word: u64,
    /// The hold time, if the datagram is delayed.
    pub span_ms: u64,
}

/// The impairment applied to one direction of the relay.
#[derive(Clone, Copy, Debug, PartialEq, Eq, Structural)]
pub struct Impairment {
    pub drop: Chance,
    pub delay: Chance,
    pub window: DelayWindow,
}

impl Impairment {
    /// The policy that forwards everything at once.
    pub fn transparent() -> (policy: Impairment)
        ensures
            policy == (Impairment {
                drop: Chance { threshold: 0 },
                delay: Chance { threshold: 0 },
                window: DelayWindow { min_ms: 0, max_ms: 0 },
            }),
            policy.drop.is_never(),
            policy.delay.is_never(),
            forall|draws: Draws| #[trigger] policy.fate_of(draws) == Fate::Pass,
    {
        let policy = Impairment {
            drop: Chance::never(),
            delay: Chance::never(),
            window: DelayWindow { min_ms: 0, max_ms: 0 },
        };
        proof {
            assert forall|draws: Draws| #[trigger] policy.fate_of(draws) == Fate::Pass by {
                law_transparent(policy, draws);
            }
        }
        policy
    }

    /// The fate that the policy assigns under the given draws: dropped if the
    /// drop chance is hit; else held for the drawn time, brought into the
    /// window, if the delay chance is hit; else passed on.
    pub open spec fn fate_of(self, draws: Draws) -> Fate {
        if self.drop.hit_by(draws.drop_word) {
            Fate::Drop
        } else if self.delay.hit_by(draws.delay_word) {
            Fate::Hold { ms: self.window.nearest(draws.span_ms) }
        } else {
            Fate::Pass
        }
    }

    /// Decides one datagram from its draws.
    pub fn decide(&self, draws: Draws) -> (fate: Fate)
        ensures
            fate == self.fate_of(draws),
    {
        if self.drop.hits(draws.drop_word) {
            Fate::Drop
        } else if self.delay.hits(draws.delay_word) {
            Fate::Hold { ms: self.window.clamp(draws.span_ms) }
        } else {
            Fate::Pass
        }
    }
}

/// With a drop chance of one, every datagram is dropped, whatever is drawn.
pub proof fn law_certain_drop(policy: Impairment, draws: Draws)
    requires
        policy.drop.is_certain(),
    ensures
        policy.fate_of(draws) == Fate::Drop,
{
    policy.drop.lemma_extremes(draws.drop_word);
}

/// With a drop chance and a delay chance of zero, every datagram is passed
/// on at once, whatever is drawn.
pub proof fn law_transparent(policy: Impairment, draws: Draws)
    requires
        policy.drop.is_never(),
        policy.delay.is_never(),
    ensures
        policy.fate_of(draws) == Fate::Pass,
{
    policy.drop.lemma_extremes(draws.drop_word);
    policy.delay.lemma_extremes(draws.delay_word);
}

/// With a drop chance of zero no datagram is dropped, and with a delay
/// chance of zero none is held.
pub proof fn law_zero_chances(policy: Impairment, draws: Draws)
    ensures
        policy.drop.is_never() ==> policy.fate_of(draws) != Fate::Drop,
        policy.delay.is_never() ==> !(policy.fate_of(draws) is Hold),
{
    policy.drop.lemma_extremes(draws.drop_word);
    policy.delay.lemma_extremes(draws.delay_word);
}

/// A held datagram is held for a time within the window, bounds included,
/// and for exactly the window's one value where its bounds meet.
pub proof fn law_hold_within_window(policy: Impairment, draws: Draws)
    ensures
        policy.fate_of(draws) matches Fate::Hold { ms } ==> {
            &&& policy.window.low() <= ms <= policy.window.high()
            &&& policy.window.is_fixed() ==> ms == policy.window.min_ms
            &&& policy.window.admits(draws.span_ms) ==> ms == draws.span_ms
        },
{
}

} // verus!
