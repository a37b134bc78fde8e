//! Sets of readiness conditions.

use vstd::prelude::*;

verus! {

/// Bit of the condition "a read would not block".
pub const READABLE: usize = 0b0001;

/// Bit of the condition "a write would not block".
pub const WRITABLE: usize = 0b0010;

/// Bit of the condition "the kernel reported an error on the descriptor".
pub const ERROR: usize = 0b0100;

/// Bit of the condition "the peer closed its end".
pub const HUP: usize = 0b1000;

/// A set of readiness conditions, one bit each.
///
/// The same type serves as the interest handed to a registration and as the
/// readiness delivered with an event.
#[derive(Clone, Copy, Debug, PartialEq, Eq, Hash, Structural)]
pub struct Ready {
    pub bits: usize,
}

impl Ready {
    /// Every condition of `other` is also in `self`.
    pub open spec fn spec_contains(&self, other: Ready) -> bool {
        self.bits & other.bits == other.bits
    }

    /// The conditions that are in `self` or in `other`.
    pub open spec fn spec_union(self, other: Ready) -> Ready {
        Ready { bits: self.bits | other.bits }
    }

    /// The conditions of `self` that are not in `other`.
    pub open spec fn spec_without(self, other: Ready) -> Ready {
        Ready { bits: self.bits & !other.bits }
    }

    pub open spec fn spec_is_empty(&self) -> bool {
        self.bits == 0
    }

    pub open spec fn spec_is_readable(&self) -> bool {
        self.bits & READABLE != 0
    }

    pub open spec fn spec_is_writable(&self) -> bool {
        self.bits & WRITABLE != 0
    }

    pub open spec fn spec_is_error(&self) -> bool {
        self.bits & ERROR != 0
    }

    pub open spec fn spec_is_hup(&self) -> bool {
        self.bits & HUP != 0
    }

    /// No condition at all.
    pub fn empty() -> (r: Ready)
        ensures
            r == (Ready { bits: 0 }),
    {
        Ready { bits: 0 }
    }

    /// Exactly the condition "readable".
    pub fn readable() -> (r: Ready)
        ensures
            r == (Ready { bits: READABLE }),
    {
        Ready { bits: READABLE }
    }

    /// Exactly the condition "writable".
    pub fn writable() -> (r: Ready)
        ensures
            r == (Ready { bits: WRITABLE }),
    {
        Ready { bits: WRITABLE }
    }

    /// Exactly the condition "error".
    pub fn error() -> (r: Ready)
        ensures
            r == (Ready { bits: ERROR }),
    {
        Ready { bits: ERROR }
    }

    /// Exactly the condition "hangup".
    pub fn hup() -> (r: Ready)
        ensures
            r == (Ready { bits: HUP }),
    {
        Ready { bits: HUP }
    }

    /// The set whose bits are those of `bits`.
    pub fn from_usize(bits: usize) -> (r: Ready)
        ensures
            r == (Ready { bits }),
    {
        Ready { bits }
    }

    /// The bits of the set.
    pub fn as_usize(&self) -> (bits: usize)
        ensures
            bits == self.bits,
    {
        self.bits
    }

    #[verifier::when_used_as_spec(spec_is_empty)]
    pub fn is_empty(&self) -> (b: bool)
        ensures
            b == self.spec_is_empty(),
    {
        self.bits == 0
    }

    #[verifier::when_used_as_spec(spec_is_readable)]
    pub fn is_readable(&self) -> (b: bool)
        ensures
            b == self.spec_is_readable(),
    {
        self.bits & READABLE != 0
    }

    #[verifier::when_used_as_spec(spec_is_writable)]
    pub fn is_writable(&self) -> (b: bool)
        ensures
            b == self.spec_is_writable(),
    {
        self.bits & WRITABLE != 0
    }

    #[verifier::when_used_as_spec(spec_is_error)]
    pub fn is_error(&self) -> (b: bool)
        ensures
            b == self.spec_is_error(),
    {
        self.bits & ERROR != 0
    }

    #[verifier::when_used_as_spec(spec_is_hup)]
    pub fn is_hup(&self) -> (b: bool)
        ensures
            b == self.spec_is_hup(),
    {
        self.bits & HUP != 0
    }

    #[verifier::when_used_as_spec(spec_contains)]
    pub fn contains(&self, other: Ready) -> (b: bool)
        ensures
            b == self.spec_contains(other),
    {
        self.bits & other.bits == other.bits
    }

    /// The set of what is in either operand.
    #[verifier::when_used_as_spec(spec_union)]
    pub fn union(self, other: Ready) -> (r: Ready)
        ensures
            r == self.spec_union(other),
    {
        Ready { bits: self.bits | other.bits }
    }

    /// Adds the conditions of `other`.
    pub fn insert(&mut self, other: Ready)
        ensures
            *final(self) == old(self).spec_union(other),
    {
        self.bits = self.bits | other.bits;
    }

    /// Takes the conditions of `other` out.
    pub fn remove(&mut self, other: Ready)
        ensures
            *final(self) == old(self).spec_without(other),
    {
        self.bits = self.bits & !other.bits;
    }
}

impl core::ops::BitOr for Ready {
    type Output = Ready;

    /// The conditions of either operand.
    fn bitor(self, rhs: Ready) -> (r: Ready) {
        Ready { bits: self.bits | rhs.bits }
    }
}

impl vstd::std_specs::ops::BitOrSpecImpl for Ready {
    open spec fn obeys_bitor_spec() -> bool {
        true
    }

    open spec fn bitor_req(self, rhs: Ready) -> bool {
        true
    }

    open spec fn bitor_spec(self, rhs: Ready) -> Ready {
        self.spec_union(rhs)
    }
}

/// Union is idempotent, commutative and associative, and the empty set is its
/// neutral element.
pub proof fn lemma_union_laws(a: Ready, b: Ready, c: Ready)
    ensures
        a.spec_union(a) == a,
        a.spec_union(b) == b.spec_union(a),
        a.spec_union(b).spec_union(c) == a.spec_union(b.spec_union(c)),
        a.spec_union(Ready { bits: 0 }) == a,
        (Ready { bits: 0 }).spec_union(a) == a,
{
    let x: usize = a.bits;
    let y: usize = b.bits;
    let z: usize = c.bits;
    assert({
        &&& x | x == x
        &&& x | y == y | x
        &&& (x | y) | z == x | (y | z)
        &&& x | 0usize == x
        &&& 0usize | x == x
    }) by (bit_vector);
}

/// A condition is in a union exactly when it is in one of the operands, and a
/// union contains both operands.
pub proof fn lemma_union_members(a: Ready, b: Ready)
    ensures
        a.spec_union(b).spec_is_readable() <==> a.spec_is_readable() || b.spec_is_readable(),
        a.spec_union(b).spec_is_writable() <==> a.spec_is_writable() || b.spec_is_writable(),
        a.spec_union(b).spec_is_error() <==> a.spec_is_error() || b.spec_is_error(),
        a.spec_union(b).spec_is_hup() <==> a.spec_is_hup() || b.spec_is_hup(),
        a.spec_union(b).spec_contains(a),
        a.spec_union(b).spec_contains(b),
{
    let x: usize = a.bits;
    let y: usize = b.bits;
    assert({
        &&& ((x | y) & 1usize != 0 <==> (x & 1usize != 0 || y & 1usize != 0))
        &&& ((x | y) & 2usize != 0 <==> (x & 2usize != 0 || y & 2usize != 0))
        &&& ((x | y) & 4usize != 0 <==> (x & 4usize != 0 || y & 4usize != 0))
        &&& ((x | y) & 8usize != 0 <==> (x & 8usize != 0 || y & 8usize != 0))
        &&& (x | y) & x == x
        &&& (x | y) & y == y
    }) by (bit_vector);
}

/// What each of the four named sets holds.
pub proof fn lemma_named_sets()
    ensures
        (Ready { bits: READABLE }).spec_is_readable(),
        !(Ready { bits: READABLE }).spec_is_writable(),
        !(Ready { bits: READABLE }).spec_is_error(),
        !(Ready { bits: READABLE }).spec_is_hup(),
        !(Ready { bits: WRITABLE }).spec_is_readable(),
        (Ready { bits: WRITABLE }).spec_is_writable(),
        !(Ready { bits: WRITABLE }).spec_is_error(),
        !(Ready { bits: WRITABLE }).spec_is_hup(),
        !(Ready { bits: ERROR }).spec_is_readable(),
        !(Ready { bits: ERROR }).spec_is_writable(),
        (Ready { bits: ERROR }).spec_is_error(),
        !(Ready { bits: ERROR }).spec_is_hup(),
        !(Ready { bits: HUP }).spec_is_readable(),
        !(Ready { bits: HUP }).spec_is_writable(),
        !(Ready { bits: HUP }).spec_is_error(),
        (Ready { bits: HUP }).spec_is_hup(),
        !(Ready { bits: 0 }).spec_is_readable(),
        !(Ready { bits: 0 }).spec_is_writable(),
        !(Ready { bits: 0 }).spec_is_error(),
        !(Ready { bits: 0 }).spec_is_hup(),
{
    assert({
        &&& 1usize & 1 != 0 && 1usize & 2 == 0 && 1usize & 4 == 0 && 1usize & 8 == 0
        &&& 2usize & 1 == 0 && 2usize & 2 != 0 && 2usize & 4 == 0 && 2usize & 8 == 0
        &&& 4usize & 1 == 0 && 4usize & 2 == 0 && 4usize & 4 != 0 && 4usize & 8 == 0
        &&& 8usize & 1 == 0 && 8usize & 2 == 0 && 8usize & 4 == 0 && 8usize & 8 != 0
        &&& 0usize & 1 == 0 && 0usize & 2 == 0 && 0usize & 4 == 0 && 0usize & 8 == 0
    }) by (bit_vector);
}

} // verus!
