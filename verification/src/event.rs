//! The readiness record that a wait hands out.

use vstd::prelude::*;
use crate::ready::Ready;
use crate::token::Token;

verus! {

/// One readiness record: what became possible, and on which registration.
#[derive(Clone, Copy, Debug, PartialEq, Eq, Structural)]
pub struct Event {
    pub kind: Ready,
    pub token: Token,
}

impl Event {
    pub fn new(readiness: Ready, token: Token) -> (e: Event)
        ensures
            e == (Event { kind: readiness, token }),
    {
        Event { kind: readiness, token }
    }

    /// The conditions that the record reports.
    pub fn readiness(&self) -> (r: Ready)
        ensures
            r == self.kind,
    {
        self.kind
    }

    /// The token of the registration that the record is about.
    pub fn token(&self) -> (t: Token)
        ensures
            t == self.token,
    {
        self.token
    }
}

} // verus!
