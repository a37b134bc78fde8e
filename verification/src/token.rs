//! The token that ties an event to its registration.

use vstd::prelude::*;

verus! {

/// An opaque identifier that a caller attaches to a registration and that the
/// kernel hands back, unchanged, with every event of that registration.
#[derive(Clone, Copy, Debug, PartialEq, Eq, Hash, PartialOrd, Ord, Structural)]
pub struct Token(pub usize);

impl Token {
    /// The integer that travels through the kernel's user-data slot.
    pub fn to_native(self) -> (n: usize)
        ensures
            n == self.0,
    {
        self.0
    }

    /// The token that a user-data value stands for.
    pub fn from_native(n: usize) -> (t: Token)
        ensures
            t == Token(n),
            t.0 == n,
    {
        Token(n)
    }
}

} // verus!
