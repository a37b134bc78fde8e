//! The delivery options of a registration.

use vstd::prelude::*;

verus! {

/// Bit of edge-triggered delivery: an event for each change of a condition.
pub const EDGE: usize = 0b0001;

/// Bit of level-triggered delivery: an event for as long as a condition holds.
pub const LEVEL: usize = 0b0010;

/// Bit of one-shot delivery: the registration is disarmed by its first event.
pub const ONESHOT: usize = 0b0100;

/// How the events of a registration are delivered, one bit per option.
#[derive(Clone, Copy, Debug, PartialEq, Eq, Hash, Structural)]
pub struct PollOpt {
    pub bits: usize,
}

impl PollOpt {
    /// Every option of `other` is also in `self`.
    pub open spec fn spec_contains(&self, other: PollOpt) -> bool {
        self.bits & other.bits == other.bits
    }

    /// The options that are in `self` or in `other`.
    pub open spec fn spec_union(self, other: PollOpt) -> PollOpt {
        PollOpt { bits: self.bits | other.bits }
    }

    pub open spec fn spec_is_edge(&self) -> bool {
        self.bits & EDGE != 0
    }

    pub open spec fn spec_is_level(&self) -> bool {
        self.bits & LEVEL != 0
    }

    pub open spec fn spec_is_oneshot(&self) -> bool {
        self.bits & ONESHOT != 0
    }

    /// No option at all.
    pub fn empty() -> (o: PollOpt)
        ensures
            o == (PollOpt { bits: 0 }),
    {
        PollOpt { bits: 0 }
    }

    /// Exactly the option "edge-triggered".
    pub fn edge() -> (o: PollOpt)
        ensures
            o == (PollOpt { bits: EDGE }),
    {
        PollOpt { bits: EDGE }
    }

    /// Exactly the option "level-triggered".
    pub fn level() -> (o: PollOpt)
        ensures
            o == (PollOpt { bits: LEVEL }),
    {
        PollOpt { bits: LEVEL }
    }

    /// Exactly the option "one-shot".
    pub fn oneshot() -> (o: PollOpt)
        ensures
            o == (PollOpt { bits: ONESHOT }),
    {
        PollOpt { bits: ONESHOT }
    }

    #[verifier::when_used_as_spec(spec_is_edge)]
    pub fn is_edge(&self) -> (b: bool)
        ensures
            b == self.spec_is_edge(),
    {
        self.bits & EDGE != 0
    }

    #[verifier::when_used_as_spec(spec_is_level)]
    pub fn is_level(&self) -> (b: bool)
        ensures
            b == self.spec_is_level(),
    {
        self.bits & LEVEL != 0
    }

    #[verifier::when_used_as_spec(spec_is_oneshot)]
    pub fn is_oneshot(&self) -> (b: bool)
        ensures
            b == self.spec_is_oneshot(),
    {
        self.bits & ONESHOT != 0
    }

    #[verifier::when_used_as_spec(spec_contains)]
    pub fn contains(&self, other: PollOpt) -> (b: bool)
        ensures
            b == self.spec_contains(other),
    {
        self.bits & other.bits == other.bits
    }

    /// The options of either operand.
    #[verifier::when_used_as_spec(spec_union)]
    pub fn union(self, other: PollOpt) -> (o: PollOpt)
        ensures
            o == self.spec_union(other),
    {
        PollOpt { bits: self.bits | other.bits }
    }
}

impl core::ops::BitOr for PollOpt {
    type Output = PollOpt;

    /// The options of either operand.
    fn bitor(self, rhs: PollOpt) -> (r: PollOpt) {
        PollOpt { bits: self.bits | rhs.bits }
    }
}

impl vstd::std_specs::ops::BitOrSpecImpl for PollOpt {
    open spec fn obeys_bitor_spec() -> bool {
        true
    }

    open spec fn bitor_req(self, rhs: PollOpt) -> bool {
        true
    }

    open spec fn bitor_spec(self, rhs: PollOpt) -> PollOpt {
        self.spec_union(rhs)
    }
}

/// An option is in a union exactly when it is in one of the operands.
pub proof fn lemma_union_options(a: PollOpt, b: PollOpt)
    ensures
        a.spec_union(b).spec_is_edge() <==> a.spec_is_edge() || b.spec_is_edge(),
        a.spec_union(b).spec_is_level() <==> a.spec_is_level() || b.spec_is_level(),
        a.spec_union(b).spec_is_oneshot() <==> a.spec_is_oneshot() || b.spec_is_oneshot(),
{
    let x: usize = a.bits;
    let y: usize = b.bits;
    assert({
        &&& ((x | y) & 1usize != 0 <==> (x & 1usize != 0 || y & 1usize != 0))
        &&& ((x | y) & 2usize != 0 <==> (x & 2usize != 0 || y & 2usize != 0))
        &&& ((x | y) & 4usize != 0 <==> (x & 4usize != 0 || y & 4usize != 0))
    }) by (bit_vector);
}

/// What each of the three named options holds.
pub proof fn lemma_named_options()
    ensures
        (PollOpt { bits: EDGE }).spec_is_edge(),
        !(PollOpt { bits: EDGE }).spec_is_level(),
        !(PollOpt { bits: EDGE }).spec_is_oneshot(),
        !(PollOpt { bits: LEVEL }).spec_is_edge(),
        (PollOpt { bits: LEVEL }).spec_is_level(),
        !(PollOpt { bits: LEVEL }).spec_is_oneshot(),
        !(PollOpt { bits: ONESHOT }).spec_is_edge(),
        !(PollOpt { bits: ONESHOT }).spec_is_level(),
        (PollOpt { bits: ONESHOT }).spec_is_oneshot(),
        !(PollOpt { bits: 0 }).spec_is_edge(),
        !(PollOpt { bits: 0 }).spec_is_level(),
        !(PollOpt { bits: 0 }).spec_is_oneshot(),
{
    assert({
        &&& 1usize & 1 != 0 && 1usize & 2 == 0 && 1usize & 4 == 0
        &&& 2usize & 1 == 0 && 2usize & 2 != 0 && 2usize & 4 == 0
        &&& 4usize & 1 == 0 && 4usize & 2 == 0 && 4usize & 4 != 0
        &&& 0usize & 1 == 0 && 0usize & 2 == 0 && 0usize & 4 == 0
    }) by (bit_vector);
}

} // verus!
