//! The selector: how a registration, a deregistration and a wait are put to
//! the kernel queue, and what its answers mean.

use vstd::prelude::*;
use std::time::Duration;
use crate::coalesce::{coalesced, lemma_coalesced_records, one_record_per_token, wake_observed};
use crate::error::Error;
use crate::events::Events;
use crate::poll_opt::PollOpt;
use crate::ready::Ready;
use crate::sys::{
    ident_of, Kevent, Timespec, ENOENT, EPIPE, EVFILT_READ, EVFILT_WRITE, EV_ADD, EV_CLEAR,
    EV_DELETE, EV_ONESHOT, EV_RECEIPT, NANOS_PER_SEC,
};
use crate::token::Token;

verus! {

/// The flags of one filter change: a receipt is always asked for; the filter
/// is added where its direction is wanted and removed where it is not;
/// edge-triggered delivery clears the state on delivery; one-shot delivery
/// removes the filter after one event. The flags are distinct bits, so their
/// sum is their union.
pub open spec fn change_flags(opts: PollOpt, wanted: bool) -> u16 {
    (EV_RECEIPT + (if wanted {
        EV_ADD
    } else {
        EV_DELETE
    }) + (if opts.is_edge() {
        EV_CLEAR
    } else {
        0u16
    }) + (if opts.is_oneshot() {
        EV_ONESHOT
    } else {
        0u16
    })) as u16
}

/// The change that sets one direction of a descriptor to what a registration
/// asks for.
pub open spec fn filter_change(
    fd: i32,
    filter: i16,
    token: Token,
    opts: PollOpt,
    wanted: bool,
) -> Kevent {
    Kevent {
        ident: ident_of(fd),
        filter,
        flags: change_flags(opts, wanted),
        fflags: 0,
        data: 0,
        udata: token.0,
    }
}

/// The change that removes one direction of a descriptor.
pub open spec fn filter_removal(fd: i32, filter: i16) -> Kevent {
    Kevent {
        ident: ident_of(fd),
        filter,
        flags: 0x42,
        fflags: 0,
        data: 0,
        udata: 0,
    }
}

/// The error number that a receipt carries: the low 32 bits of its data.
pub open spec fn receipt_code(receipt: Kevent) -> i32 {
    receipt.data as i32
}

/// Whether a registration with these interests wants the direction of a
/// filter. A filter that is not the read filter counts as the write filter.
pub open spec fn direction_wanted(filter: i16, interests: Ready) -> bool {
    if filter == EVFILT_READ {
        interests.is_readable()
    } else {
        interests.is_writable()
    }
}

/// The errors that a registration does not report: a broken pipe on the
/// write direction, which the kernel raises for a pipe whose other end is
/// gone although it goes on to deliver events for it, and a missing entry on
/// a direction that was to be removed.
pub open spec fn register_suppresses(filter: i16, removal: bool, code: i32) -> bool {
    ||| (code == EPIPE && filter == EVFILT_WRITE)
    ||| (code == ENOENT && removal)
}

/// Whether a registration with these interests passes over a receipt.
pub open spec fn register_accepts(receipt: Kevent, interests: Ready) -> bool {
    ||| receipt.data == 0
    ||| register_suppresses(
        receipt.filter,
        !direction_wanted(receipt.filter, interests),
        receipt_code(receipt),
    )
}

/// What a registration comes to, given the receipts of its two changes: the
/// error of the first receipt that is not passed over, if there is one.
pub open spec fn register_outcome(receipts: Seq<Kevent>, interests: Ready) -> Result<(), Error> {
    if !register_accepts(receipts[0], interests) {
        Err(Error::Registration(receipt_code(receipts[0])))
    } else if !register_accepts(receipts[1], interests) {
        Err(Error::Registration(receipt_code(receipts[1])))
    } else {
        Ok(())
    }
}

/// Whether a receipt of a removal reports an error other than a missing
/// entry.
pub open spec fn removal_failed(receipt: Kevent) -> bool {
    receipt.data != 0 && receipt_code(receipt) != ENOENT
}

/// What a deregistration comes to, given the receipts of its two removals.
/// Where neither direction had an entry, the descriptor was not registered,
/// and that is an error; a single missing entry is not. Any other error is
/// reported with the number of the receipt that carries it.
pub open spec fn deregister_outcome(receipts: Seq<Kevent>) -> Result<(), Error> {
    if receipt_code(receipts[0]) == ENOENT && receipt_code(receipts[1]) == ENOENT {
        Err(Error::Registration(ENOENT))
    } else if removal_failed(receipts[0]) {
        Err(Error::Registration(receipt_code(receipts[0])))
    } else if removal_failed(receipts[1]) {
        Err(Error::Registration(receipt_code(receipts[1])))
    } else {
        Ok(())
    }
}

/// The whole seconds of a duration.
pub uninterp spec fn duration_secs(d: Duration) -> u64;

/// The part of a duration beyond its whole seconds, in nanoseconds.
pub uninterp spec fn duration_subsec_nanos(d: Duration) -> u32;

/// `Duration::as_secs`: the whole seconds of the duration.
pub assume_specification[ Duration::as_secs ](d: &Duration) -> (secs: u64)
    ensures
        secs == duration_secs(*d),
;

/// `Duration::subsec_nanos`: the part of the duration beyond its whole
/// seconds, in nanoseconds, which is less than a second.
pub assume_specification[ Duration::subsec_nanos ](d: &Duration) -> (nanos: u32)
    ensures
        nanos == duration_subsec_nanos(*d),
        nanos < NANOS_PER_SEC,
;

/// The wait limit for a number of seconds and nanoseconds: the seconds are
/// cut down to the most that the kernel's form can hold.
pub open spec fn timespec_of(secs: u64, nanos: u32) -> Timespec {
    Timespec {
        tv_sec: if secs > i64::MAX {
            i64::MAX
        } else {
            secs as i64
        },
        tv_nsec: nanos as i64,
    }
}

/// The wait limit of a timeout: none where the wait is to last until
/// something happens.
pub open spec fn timeout_of(timeout: Option<Duration>) -> Option<Timespec> {
    match timeout {
        Some(d) => Some(timespec_of(duration_secs(d), duration_subsec_nanos(d))),
        None => None,
    }
}

/// What a wait comes to, given what the kernel call yielded: a failed call is
/// an error with its number; a batch of raw events tells whether the wake
/// token was among them.
pub open spec fn select_outcome(waited: Result<Vec<Kevent>, i32>, awakener: Token) -> Result<
    bool,
    Error,
> {
    match waited {
        Ok(raw) => Ok(wake_observed(raw@, awakener)),
        Err(errno) => Err(Error::Io(errno)),
    }
}

/// The handle of one kernel queue together with the identifier under which
/// the rest of the process knows it.
#[derive(Debug)]
pub struct Selector {
    id: usize,
    kq: i32,
}

impl Selector {
    #[verifier::type_invariant]
    spec fn well_formed(self) -> bool {
        self.id != 0
    }

    /// The identifier of the selector.
    pub closed spec fn spec_id(&self) -> usize {
        self.id
    }

    /// The descriptor of the kernel queue.
    pub closed spec fn spec_kq(&self) -> i32 {
        self.kq
    }

    /// The selector of a kernel queue that was just opened, or the error of
    /// the attempt. `issued` is the number of identifiers handed out in this
    /// process before; the selector gets the next one.
    pub fn new(issued: usize, opened: Result<i32, i32>) -> (r: Result<Selector, Error>)
        requires
            issued < usize::MAX,
        ensures
            match opened {
                Ok(kq) => r is Ok && r->Ok_0.spec_id() == issued + 1 && r->Ok_0.spec_kq() == kq,
                Err(errno) => r == Err::<Selector, Error>(Error::Resource(errno)),
            },
    {
        match opened {
            Ok(kq) => Ok(Selector { id: issued + 1, kq }),
            Err(errno) => Err(Error::Resource(errno)),
        }
    }

    /// The identifier of the selector. It is never zero, so that zero can
    /// stand for "no selector".
    #[verifier::when_used_as_spec(spec_id)]
    pub fn id(&self) -> (id: usize)
        ensures
            id == self.spec_id(),
            id != 0,
    {
        proof {
            use_type_invariant(self);
        }
        self.id
    }

    /// The descriptor of the kernel queue, to which the changes and the waits
    /// of this selector go.
    #[verifier::when_used_as_spec(spec_kq)]
    pub fn kq(&self) -> (kq: i32)
        ensures
            kq == self.spec_kq(),
    {
        self.kq
    }

    /// The two changes that bring a descriptor's filters to what a
    /// registration asks for: first the read direction, then the write
    /// direction. Both carry the token and ask for a receipt.
    pub fn register(&self, fd: i32, token: Token, interests: Ready, opts: PollOpt) -> (changes: [
        Kevent; 2
    ])
        ensures
            changes[0] == filter_change(fd, EVFILT_READ, token, opts, interests.is_readable()),
            changes[1] == filter_change(fd, EVFILT_WRITE, token, opts, interests.is_writable()),
    {
        let clear: u16 = if opts.is_edge() { EV_CLEAR } else { 0 };
        let oneshot: u16 = if opts.is_oneshot() { EV_ONESHOT } else { 0 };
        let flags: u16 = clear | oneshot | EV_RECEIPT;
        let r: u16 = if interests.is_readable() { EV_ADD } else { EV_DELETE };
        let w: u16 = if interests.is_writable() { EV_ADD } else { EV_DELETE };
        proof {
            lemma_flags_sum(clear, oneshot, r);
            lemma_flags_sum(clear, oneshot, w);
        }
        let ident: usize = #[verifier::truncate] (fd as usize);
        let udata: usize = token.to_native();
        [
            Kevent { ident, filter: EVFILT_READ, flags: flags | r, fflags: 0, data: 0, udata },
            Kevent { ident, filter: EVFILT_WRITE, flags: flags | w, fflags: 0, data: 0, udata },
        ]
    }

    /// The changes of a registration that replaces an earlier one. Adding a
    /// filter that exists updates it, so they are those of `register`.
    pub fn reregister(&self, fd: i32, token: Token, interests: Ready, opts: PollOpt) -> (changes: [
        Kevent; 2
    ])
        ensures
            changes[0] == filter_change(fd, EVFILT_READ, token, opts, interests.is_readable()),
            changes[1] == filter_change(fd, EVFILT_WRITE, token, opts, interests.is_writable()),
    {
        self.register(fd, token, interests, opts)
    }

    /// The two changes that remove both filters of a descriptor, each with a
    /// receipt.
    pub fn deregister(&self, fd: i32) -> (changes: [Kevent; 2])
        ensures
            changes[0] == filter_removal(fd, EVFILT_READ),
            changes[1] == filter_removal(fd, EVFILT_WRITE),
    {
        let flags: u16 = EV_DELETE | EV_RECEIPT;
        assert(0x2u16 | 0x40u16 == 0x42u16) by (bit_vector);
        let ident: usize = #[verifier::truncate] (fd as usize);
        [
            Kevent { ident, filter: EVFILT_READ, flags, fflags: 0, data: 0, udata: 0 },
            Kevent { ident, filter: EVFILT_WRITE, flags, fflags: 0, data: 0, udata: 0 },
        ]
    }

    /// Whether a registration leaves an error of one of its changes
    /// unreported.
    pub fn suppressed_on_register(filter: i16, removal: bool, code: i32) -> (b: bool)
        ensures
            b == register_suppresses(filter, removal, code),
    {
        (code == EPIPE && filter == EVFILT_WRITE) || (code == ENOENT && removal)
    }

    /// What a registration with these interests comes to, given what applying
    /// its changes yielded: the error number of a failed call, or the
    /// receipts of the two changes.
    pub fn check_register(interests: Ready, applied: Result<[Kevent; 2], i32>) -> (r: Result<
        (),
        Error,
    >)
        ensures
            r == match applied {
                Ok(receipts) => register_outcome(receipts@, interests),
                Err(errno) => Err(Error::Registration(errno)),
            },
    {
        match applied {
            Err(errno) => Err(Error::Registration(errno)),
            Ok(receipts) => {
                let mut i: usize = 0;
                while i < 2
                    invariant
                        i <= 2,
                        applied == Ok::<[Kevent; 2], i32>(receipts),
                        forall|j: int|
                            0 <= j < i ==> register_accepts(#[trigger] receipts@[j], interests),
                    decreases 2 - i,
                {
                    let change = receipts[i];
                    if change.data != 0 {
                        let code: i32 = #[verifier::truncate] (change.data as i32);
                        let wanted = if change.filter == EVFILT_READ {
                            interests.is_readable()
                        } else {
                            interests.is_writable()
                        };
                        if !Self::suppressed_on_register(change.filter, !wanted, code) {
                            assert(i == 1 ==> register_accepts(receipts@[0], interests));
                            return Err(Error::Registration(code));
                        }
                    }
                    i += 1;
                }
                assert(register_accepts(receipts@[0], interests));
                assert(register_accepts(receipts@[1], interests));
                Ok(())
            },
        }
    }

    /// What a deregistration comes to, given what applying its changes
    /// yielded: the error number of a failed call, or the receipts of the two
    /// removals.
    pub fn check_deregister(applied: Result<[Kevent; 2], i32>) -> (r: Result<(), Error>)
        ensures
            r == match applied {
                Ok(receipts) => deregister_outcome(receipts@),
                Err(errno) => Err(Error::Registration(errno)),
            },
    {
        match applied {
            Err(errno) => Err(Error::Registration(errno)),
            Ok(receipts) => {
                let first: i32 = #[verifier::truncate] (receipts[0].data as i32);
                let second: i32 = #[verifier::truncate] (receipts[1].data as i32);
                if first == ENOENT && second == ENOENT {
                    return Err(Error::Registration(first));
                }
                let mut i: usize = 0;
                while i < 2
                    invariant
                        i <= 2,
                        applied == Ok::<[Kevent; 2], i32>(receipts),
                        !(receipt_code(receipts@[0]) == ENOENT && receipt_code(receipts@[1])
                            == ENOENT),
                        forall|j: int| 0 <= j < i ==> !removal_failed(#[trigger] receipts@[j]),
                    decreases 2 - i,
                {
                    let change = receipts[i];
                    let code: i32 = #[verifier::truncate] (change.data as i32);
                    if change.data != 0 && code != ENOENT {
                        assert(i == 1 ==> !removal_failed(receipts@[0]));
                        return Err(Error::Registration(code));
                    }
                    i += 1;
                }
                assert(!removal_failed(receipts@[0]));
                assert(!removal_failed(receipts@[1]));
                Ok(())
            },
        }
    }

    /// The wait limit for a number of seconds and nanoseconds.
    pub fn timespec(secs: u64, nanos: u32) -> (ts: Timespec)
        ensures
            ts == timespec_of(secs, nanos),
    {
        let tv_sec: i64 = if secs > 0x7fff_ffff_ffff_ffff {
            0x7fff_ffff_ffff_ffff
        } else {
            secs as i64
        };
        Timespec { tv_sec, tv_nsec: nanos as i64 }
    }

    /// The wait limit to hand to the kernel for a timeout: none for a wait
    /// without limit.
    pub fn wait_timeout(timeout: Option<Duration>) -> (ts: Option<Timespec>)
        ensures
            ts == timeout_of(timeout),
    {
        match timeout {
            Some(d) => Some(Self::timespec(d.as_secs(), d.subsec_nanos())),
            None => None,
        }
    }

    /// Ends a wait, given what the kernel call yielded. A failed call is
    /// reported with its error number and leaves the working set as it was.
    /// A batch of raw events replaces the raw events and the records of the
    /// working set, and the result tells whether the wake token was seen.
    pub fn select(
        &self,
        evts: &mut Events,
        awakener: Token,
        waited: Result<Vec<Kevent>, i32>,
    ) -> (r: Result<bool, Error>)
        ensures
            r == select_outcome(waited, awakener),
            final(evts).batch_limit() == old(evts).batch_limit(),
            match waited {
                Ok(raw) => final(evts)@ == coalesced(raw@, awakener) && final(evts).raw() == raw@
                    && one_record_per_token(raw@, awakener, final(evts)@),
                Err(errno) => final(evts)@ == old(evts)@ && final(evts).raw() == old(evts).raw(),
            },
    {
        match waited {
            Err(errno) => Err(Error::Io(errno)),
            Ok(raw) => {
                proof {
                    lemma_coalesced_records(raw@, awakener);
                }
                evts.load(raw);
                Ok(evts.coalesce(awakener))
            },
        }
    }
}

/// The union of the flags of a change is their sum.
proof fn lemma_flags_sum(clear: u16, oneshot: u16, action: u16)
    requires
        clear == 0 || clear == EV_CLEAR,
        oneshot == 0 || oneshot == EV_ONESHOT,
        action == EV_ADD || action == EV_DELETE,
    ensures
        (clear | oneshot | EV_RECEIPT) | action == EV_RECEIPT + action + clear + oneshot,
{
    assert((clear == 0 || clear == 0x20) && (oneshot == 0 || oneshot == 0x10) && (action == 0x1
        || action == 0x2) ==> (clear | oneshot | 0x40u16) | action == 0x40u16 + action + clear
        + oneshot) by (bit_vector);
}

/// The flags of a change, one by one: a receipt is always asked for; the
/// filter is added exactly where its direction is wanted, and removed
/// otherwise; the state is cleared on delivery exactly for edge-triggered
/// delivery; the filter goes after one event exactly for one-shot delivery;
/// and no other flag is set.
pub proof fn lemma_change_flags(opts: PollOpt, wanted: bool)
    ensures
        change_flags(opts, wanted) & EV_RECEIPT != 0,
        change_flags(opts, wanted) & EV_ADD != 0 <==> wanted,
        change_flags(opts, wanted) & EV_DELETE != 0 <==> !wanted,
        change_flags(opts, wanted) & EV_CLEAR != 0 <==> opts.is_edge(),
        change_flags(opts, wanted) & EV_ONESHOT != 0 <==> opts.is_oneshot(),
        change_flags(opts, wanted) & !0x73u16 == 0,
{
    let a: u16 = if wanted {
        0x1
    } else {
        0x2
    };
    let c: u16 = if opts.is_edge() {
        0x20
    } else {
        0
    };
    let o: u16 = if opts.is_oneshot() {
        0x10
    } else {
        0
    };
    assert((a == 1 || a == 2) && (c == 0 || c == 0x20) && (o == 0 || o == 0x10) ==> {
        &&& ((0x40u16 + a + c + o) as u16) & 0x40 != 0
        &&& (((0x40u16 + a + c + o) as u16) & 0x1 != 0 <==> a == 1)
        &&& (((0x40u16 + a + c + o) as u16) & 0x2 != 0 <==> a == 2)
        &&& (((0x40u16 + a + c + o) as u16) & 0x20 != 0 <==> c == 0x20)
        &&& (((0x40u16 + a + c + o) as u16) & 0x10 != 0 <==> o == 0x10)
        &&& ((0x40u16 + a + c + o) as u16) & !0x73u16 == 0
    }) by (bit_vector);
}

/// A broken pipe on the write direction never makes a registration fail:
/// where the receipt of the read direction is passed over, the registration
/// succeeds, whatever the interests are.
pub proof fn lemma_broken_pipe_on_write_is_passed_over(receipts: Seq<Kevent>, interests: Ready)
    requires
        receipts.len() == 2,
        register_accepts(receipts[0], interests),
        receipts[1].filter == EVFILT_WRITE,
        receipt_code(receipts[1]) == EPIPE,
    ensures
        register_accepts(receipts[1], interests),
        register_outcome(receipts, interests) == Ok::<(), Error>(()),
{
}

/// A missing entry makes a registration fail exactly on a direction that the
/// registration wants.
pub proof fn lemma_missing_entry_on_register(receipt: Kevent, interests: Ready)
    requires
        receipt_code(receipt) == ENOENT,
    ensures
        register_accepts(receipt, interests) <==> !direction_wanted(receipt.filter, interests),
{
    let d: i64 = receipt.data;
    assert(d as i32 == 2i32 ==> d != 0) by (bit_vector);
}

/// Removing the filters of a descriptor that has none is an error, which
/// says that nothing was found; removing them where only one direction had
/// a filter succeeds.
pub proof fn lemma_missing_entry_on_deregister(receipts: Seq<Kevent>)
    requires
        receipts.len() == 2,
    ensures
        receipt_code(receipts[0]) == ENOENT && receipt_code(receipts[1]) == ENOENT
            ==> deregister_outcome(receipts) == Err::<(), Error>(Error::Registration(ENOENT))
            && Error::Registration(ENOENT).is_not_found(),
        receipt_code(receipts[0]) == ENOENT && receipts[1].data == 0 ==> deregister_outcome(
            receipts,
        ) == Ok::<(), Error>(()),
        receipts[0].data == 0 && receipt_code(receipts[1]) == ENOENT ==> deregister_outcome(
            receipts,
        ) == Ok::<(), Error>(()),
        receipts[0].data == 0 && receipts[1].data == 0 ==> deregister_outcome(receipts) == Ok::<
            (),
            Error,
        >(()),
{
    assert(0i64 as i32 == 0i32) by (bit_vector);
}

} // verus!
