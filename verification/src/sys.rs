//! The kernel queue's records and numbers, as plain values.

use vstd::prelude::*;

verus! {

/// Filter of the read direction of a descriptor.
pub const EVFILT_READ: i16 = -1;

/// Filter of the write direction of a descriptor.
pub const EVFILT_WRITE: i16 = -2;

/// Change flag: add the filter, or update it where it exists.
pub const EV_ADD: u16 = 0x1;

/// Change flag: remove the filter.
pub const EV_DELETE: u16 = 0x2;

/// Change flag: remove the filter after its first event.
pub const EV_ONESHOT: u16 = 0x10;

/// Change flag: reset the filter's state after each event.
pub const EV_CLEAR: u16 = 0x20;

/// Change flag: answer each change with a record of its own.
pub const EV_RECEIPT: u16 = 0x40;

/// Event flag: the record carries an error number in its data field.
pub const EV_ERROR: u16 = 0x4000;

/// Event flag: the other end of the descriptor was closed.
pub const EV_EOF: u16 = 0x8000;

/// Error number: no such entry.
pub const ENOENT: i32 = 2;

/// Error number: the call was interrupted.
pub const EINTR: i32 = 4;

/// Error number: broken pipe.
pub const EPIPE: i32 = 32;

/// Nanoseconds in a second.
pub const NANOS_PER_SEC: u32 = 1_000_000_000;

/// One record of the kernel queue, as plain integers. The same shape serves
/// for a change handed to the kernel and for an event or receipt handed back.
#[derive(Clone, Copy, Debug, PartialEq, Eq, Structural)]
pub struct Kevent {
    /// The descriptor that the record is about.
    pub ident: usize,
    /// The direction: `EVFILT_READ` or `EVFILT_WRITE`.
    pub filter: i16,
    /// Change flags on the way in, event flags on the way out.
    pub flags: u16,
    /// Flags of the filter; beside `EV_EOF`, the error of the closed end.
    pub fflags: u32,
    /// Data of the filter; in a receipt, the error number of the change.
    pub data: i64,
    /// The user-data slot, which carries the token.
    pub udata: usize,
}

/// A wait limit in the kernel's form.
#[derive(Clone, Copy, Debug, PartialEq, Eq, Structural)]
pub struct Timespec {
    pub tv_sec: i64,
    pub tv_nsec: i64,
}

/// The identifier under which the kernel queue knows a descriptor: the
/// descriptor itself, widened to the width of a pointer.
pub open spec fn ident_of(fd: i32) -> usize {
    fd as usize
}

/// What a system call that answers `-1` on failure has yielded, given the
/// value it returned and the error number that was read right after it.
pub open spec fn call_result(ret: i32, errno: i32) -> Result<i32, i32> {
    if ret == -1 {
        Err(errno)
    } else {
        Ok(ret)
    }
}

/// Tells a failed system call from one that succeeded.
pub fn cvt(ret: i32, errno: i32) -> (r: Result<i32, i32>)
    ensures
        r == call_result(ret, errno),
{
    if ret == -1 {
        Err(errno)
    } else {
        Ok(ret)
    }
}

/// The identifier of a descriptor that is not negative is its number.
pub proof fn lemma_ident_of_descriptor(fd: i32)
    requires
        fd >= 0,
    ensures
        ident_of(fd) == fd,
{
    assert(fd >= 0 ==> fd as usize == fd) by (bit_vector);
}

} // verus!
