//! The working set of the waits: the raw events and the records made of
//! them.

use vstd::prelude::*;
use std::collections::HashMap;
use crate::coalesce::{
    coalesced, lemma_slot_of, lemma_slot_of_push, lemma_slot_of_update, raw_readiness, raw_token,
    slot_of, wake_observed,
};
use crate::event::Event;
use crate::ready::{Ready, ERROR, HUP, READABLE, WRITABLE};
use crate::sys::{Kevent, EVFILT_READ, EVFILT_WRITE, EV_EOF, EV_ERROR};
use crate::token::Token;

verus! {

/// Whether a map from tokens to positions says of every token what `slot_of`
/// says of it.
spec fn index_agrees(index: Map<usize, usize>, out: Seq<Event>) -> bool {
    forall|t: usize|
        match #[trigger] slot_of(out, Token(t)) {
            Some(i) => index.contains_key(t) && index[t] == i,
            None => !index.contains_key(t),
        }
}

/// The bits of the readiness that one raw event reports.
fn readiness_of(e: &Kevent) -> (r: Ready)
    ensures
        r == raw_readiness(*e),
{
    let mut kind = Ready::empty();
    if e.flags & EV_ERROR != 0 {
        kind.insert(Ready::error());
    }
    if e.filter == EVFILT_READ {
        kind.insert(Ready::readable());
    } else if e.filter == EVFILT_WRITE {
        kind.insert(Ready::writable());
    }
    if e.flags & EV_EOF != 0 {
        kind.insert(Ready::hup());
        if e.fflags != 0 {
            kind.insert(Ready::error());
        }
    }
    proof {
        lemma_bits_sum(
            if e.filter == EVFILT_READ {
                READABLE
            } else if e.filter == EVFILT_WRITE {
                WRITABLE
            } else {
                0
            },
            e.flags & EV_ERROR != 0,
            e.flags & EV_EOF != 0,
            e.fflags != 0,
        );
    }
    kind
}

/// The union of the conditions of one raw event, taken in the order in which
/// they are read off the event, is their sum.
proof fn lemma_bits_sum(direction: usize, error: bool, eof: bool, reason: bool)
    requires
        direction == 0 || direction == READABLE || direction == WRITABLE,
    ensures
        ({
            let b0 = 0usize;
            let b1 = if error { b0 | ERROR } else { b0 };
            let b2 = if direction != 0 { b1 | direction } else { b1 };
            let b3 = if eof { b2 | HUP } else { b2 };
            if eof && reason { b3 | ERROR } else { b3 }
        }) == direction + (if error || (eof && reason) {
            ERROR
        } else {
            0usize
        }) + (if eof {
            HUP
        } else {
            0usize
        }),
{
    let e: usize = if error { 4 } else { 0 };
    let h: usize = if eof { 8 } else { 0 };
    let x: usize = if eof && reason { 4 } else { 0 };
    assert((direction == 0 || direction == 1 || direction == 2) && (e == 0 || e == 4) && (h == 0
        || h == 8) && (x == 0 || x == 4) ==> {
        &&& 0usize | e == e
        &&& e | direction == e + direction
        &&& (e | direction) | h == e + direction + h
        &&& ((e | direction) | h) | x == direction + (if e == 4 || x == 4 {
            4usize
        } else {
            0usize
        }) + h
    }) by (bit_vector);
}

/// `Vec::capacity`: the number of elements that the vector can hold without
/// allocating again, which is never less than its length.
#[verifier::external_body]
fn vec_capacity<T>(v: &Vec<T>) -> (cap: usize)
    ensures
        cap >= v@.len(),
{
    v.capacity()
}

/// The working set of one wait: the raw events as the kernel delivered them,
/// and the readiness records that they come to, one per token. Both are
/// written anew by every wait. The capacity that the working set was made
/// with stays with it: it is the most that one wait asks the kernel for.
pub struct Events {
    sys_events: Vec<Kevent>,
    events: Vec<Event>,
    event_map: HashMap<usize, usize>,
    limit: usize,
}

impl View for Events {
    type V = Seq<Event>;

    /// The readiness records, in the order in which they are handed out.
    closed spec fn view(&self) -> Seq<Event> {
        self.events@
    }
}

impl Events {
    /// The raw events of the last wait.
    pub closed spec fn raw(&self) -> Seq<Kevent> {
        self.sys_events@
    }

    /// The most raw events that one wait asks the kernel for.
    pub closed spec fn spec_batch_limit(&self) -> usize {
        self.limit
    }

    /// An empty working set with room for `cap` raw events and as many
    /// records, whose waits ask the kernel for at most `cap` raw events each.
    /// This bounds one batch, not the number of descriptors registered.
    pub fn with_capacity(cap: usize) -> (evts: Events)
        ensures
            evts@ == Seq::<Event>::empty(),
            evts.raw() == Seq::<Kevent>::empty(),
            evts.batch_limit() == cap,
    {
        Events {
            sys_events: Vec::with_capacity(cap),
            events: Vec::with_capacity(cap),
            event_map: HashMap::with_capacity(cap),
            limit: cap,
        }
    }

    /// The most raw events that one wait asks the kernel for: the capacity
    /// that the working set was made with. Nothing changes it.
    #[verifier::when_used_as_spec(spec_batch_limit)]
    pub fn batch_limit(&self) -> (n: usize)
        ensures
            n == self.spec_batch_limit(),
    {
        self.limit
    }

    /// The number of records.
    pub fn len(&self) -> (n: usize)
        ensures
            n == self@.len(),
    {
        self.events.len()
    }

    /// The number of records that fit without allocating again. It is at
    /// least the number of records; how much more is up to the allocator.
    pub fn capacity(&self) -> (cap: usize)
        ensures
            cap >= self@.len(),
    {
        vec_capacity(&self.events)
    }

    /// Whether there is no record.
    pub fn is_empty(&self) -> (b: bool)
        ensures
            b == (self@.len() == 0),
    {
        self.events.len() == 0
    }

    /// The number of raw events of the last wait.
    pub fn raw_len(&self) -> (n: usize)
        ensures
            n == self.raw().len(),
    {
        self.sys_events.len()
    }

    /// The record at a position, if there is one.
    pub fn get(&self, idx: usize) -> (e: Option<Event>)
        ensures
            e == if idx < self@.len() {
                Some(self@[idx as int])
            } else {
                None
            },
    {
        if idx < self.events.len() {
            Some(self.events[idx])
        } else {
            None
        }
    }

    /// Puts a record at the end, whatever the raw events hold and however
    /// many records there are already.
    pub fn push_event(&mut self, event: Event)
        ensures
            final(self)@ == old(self)@.push(event),
            final(self).raw() == old(self).raw(),
            final(self).batch_limit() == old(self).batch_limit(),
    {
        self.events.push(event);
    }

    /// The number of raw events that fit without allocating again. It is at
    /// least the number of raw events; how much more is up to the allocator.
    pub fn raw_capacity(&self) -> (cap: usize)
        ensures
            cap >= self.raw().len(),
    {
        vec_capacity(&self.sys_events)
    }

    /// Takes a batch of raw events as those of the last wait.
    pub(crate) fn load(&mut self, raw: Vec<Kevent>)
        ensures
            final(self).raw() == raw@,
            final(self)@ == old(self)@,
            final(self).batch_limit() == old(self).batch_limit(),
    {
        self.sys_events = raw;
    }

    /// Rebuilds the records from the raw events, and tells whether one of the
    /// raw events carried the wake token.
    pub(crate) fn coalesce(&mut self, awakener: Token) -> (woke: bool)
        ensures
            final(self)@ == coalesced(old(self).raw(), awakener),
            final(self).raw() == old(self).raw(),
            final(self).batch_limit() == old(self).batch_limit(),
            woke == wake_observed(old(self).raw(), awakener),
    {
        broadcast use vstd::std_specs::hash::group_hash_axioms;

        let mut woke = false;
        self.events.clear();
        self.event_map.clear();
        let ghost raw = self.sys_events@;
        let n: usize = self.sys_events.len();
        let mut i: usize = 0;
        assert(raw.take(0) =~= Seq::<Kevent>::empty());
        while i < n
            invariant
                i <= n,
                n == raw.len(),
                self.sys_events@ == raw,
                self.limit == old(self).limit,
                self.events@ == coalesced(raw.take(i as int), awakener),
                woke == wake_observed(raw.take(i as int), awakener),
                index_agrees(self.event_map@, self.events@),
            decreases n - i,
        {
            let e = self.sys_events[i];
            let token = Token::from_native(e.udata);
            let ghost before = self.events@;
            let ghost upto = raw.take(i as int);
            let ghost next = raw.take(i + 1);
            proof {
                assert(next.drop_last() =~= upto);
                if wake_observed(upto, awakener) {
                    let k: int = choose|k: int|
                        0 <= k < upto.len() && raw_token(#[trigger] upto[k]) == awakener;
                    assert(next[k] == upto[k]);
                }
                if raw_token(e) == awakener {
                    assert(raw_token(next[i as int]) == awakener);
                }
                if wake_observed(next, awakener) && raw_token(e) != awakener {
                    let k: int = choose|k: int|
                        0 <= k < next.len() && raw_token(#[trigger] next[k]) == awakener;
                    assert(upto[k] == next[k]);
                }
            }
            if token == awakener {
                woke = true;
            } else {
                let len: usize = self.events.len();
                let r = readiness_of(&e);
                proof {
                    lemma_slot_of(before, token);
                }
                match self.event_map.get(&token.0) {
                    Some(found) => {
                        let idx: usize = *found;
                        let mut ev = self.events[idx];
                        ev.kind.insert(r);
                        self.events.set(idx, ev);
                        proof {
                            assert forall|t: usize| true implies match #[trigger] slot_of(
                                self.events@,
                                Token(t),
                            ) {
                                Some(j) => self.event_map@.contains_key(t) && self.event_map@[t]
                                    == j,
                                None => !self.event_map@.contains_key(t),
                            } by {
                                lemma_slot_of_update(before, idx as int, ev, Token(t));
                            }
                        }
                    },
                    None => {
                        self.event_map.insert(token.0, len);
                        let mut ev = Event::new(Ready::empty(), token);
                        ev.kind.insert(r);
                        self.events.push(ev);
                        proof {
                            let x: usize = r.bits;
                            assert(0usize | x == x) by (bit_vector);
                            assert forall|t: usize| true implies match #[trigger] slot_of(
                                self.events@,
                                Token(t),
                            ) {
                                Some(j) => self.event_map@.contains_key(t) && self.event_map@[t]
                                    == j,
                                None => !self.event_map@.contains_key(t),
                            } by {
                                lemma_slot_of_push(before, ev, Token(t));
                            }
                        }
                    },
                }
            }
            i += 1;
        }
        assert(raw.take(n as int) =~= raw);
        woke
    }
}

} // verus!
