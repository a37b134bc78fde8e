//! The errors of the selector.

use vstd::prelude::*;
use crate::sys::{EINTR, ENOENT};

verus! {

/// Why an operation on the selector failed. Each variant holds the error
/// number that the kernel reported.
#[derive(Clone, Copy, Debug, PartialEq, Eq, Structural)]
pub enum Error {
    /// The kernel queue could not be created.
    Resource(i32),
    /// A change of registration was refused.
    Registration(i32),
    /// The wait itself failed.
    Io(i32),
}

impl Error {
    pub open spec fn spec_raw_os_error(&self) -> i32 {
        match *self {
            Error::Resource(code) => code,
            Error::Registration(code) => code,
            Error::Io(code) => code,
        }
    }

    pub open spec fn spec_is_not_found(&self) -> bool {
        *self == Error::Registration(ENOENT)
    }

    pub open spec fn spec_is_interrupted(&self) -> bool {
        *self == Error::Io(EINTR)
    }

    /// The error number that the kernel reported.
    #[verifier::when_used_as_spec(spec_raw_os_error)]
    pub fn raw_os_error(&self) -> (code: i32)
        ensures
            code == self.spec_raw_os_error(),
    {
        match *self {
            Error::Resource(code) => code,
            Error::Registration(code) => code,
            Error::Io(code) => code,
        }
    }

    /// The descriptor had no registration to change.
    #[verifier::when_used_as_spec(spec_is_not_found)]
    pub fn is_not_found(&self) -> (b: bool)
        ensures
            b == self.spec_is_not_found(),
    {
        match *self {
            Error::Registration(code) => code == ENOENT,
            _ => false,
        }
    }

    /// The wait was interrupted before anything happened: it can be made
    /// again as it was.
    #[verifier::when_used_as_spec(spec_is_interrupted)]
    pub fn is_interrupted(&self) -> (b: bool)
        ensures
            b == self.spec_is_interrupted(),
    {
        match *self {
            Error::Io(code) => code == EINTR,
            _ => false,
        }
    }
}

} // verus!
