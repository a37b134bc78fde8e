//! What a batch of raw kernel events comes to: one readiness record per
//! token, with the wake token kept back. The model, and what holds of it.

use vstd::prelude::*;
use crate::event::Event;
use crate::ready::{Ready, ERROR, HUP, READABLE, WRITABLE};
use crate::sys::{Kevent, EVFILT_READ, EVFILT_WRITE, EV_EOF, EV_ERROR};
use crate::token::Token;

verus! {

/// The token that a raw event carries in its user-data slot.
pub open spec fn raw_token(e: Kevent) -> Token {
    Token(e.udata)
}

/// Whether a raw event reports an error: by its error flag, or by an error
/// of the closed end beside its end-of-file flag.
pub open spec fn raw_is_error(e: Kevent) -> bool {
    e.flags & EV_ERROR != 0 || (e.flags & EV_EOF != 0 && e.fflags != 0)
}

/// Whether a raw event reports that the other end was closed.
pub open spec fn raw_is_hup(e: Kevent) -> bool {
    e.flags & EV_EOF != 0
}

/// The readiness that one raw event reports. The conditions are distinct
/// bits, so their sum is their union.
pub open spec fn raw_readiness(e: Kevent) -> Ready {
    Ready {
        bits: ((if e.filter == EVFILT_READ {
            READABLE
        } else if e.filter == EVFILT_WRITE {
            WRITABLE
        } else {
            0usize
        }) + (if raw_is_error(e) {
            ERROR
        } else {
            0usize
        }) + (if raw_is_hup(e) {
            HUP
        } else {
            0usize
        })) as usize,
    }
}

/// The first position of a record with the given token, if there is one.
pub open spec fn slot_of(out: Seq<Event>, token: Token) -> Option<int>
    decreases out.len(),
{
    if out.len() == 0 {
        None
    } else {
        match slot_of(out.drop_last(), token) {
            Some(i) => Some(i),
            None => if out.last().token == token {
                Some(out.len() - 1)
            } else {
                None
            },
        }
    }
}

/// The records after one more raw event: an event with the wake token leaves
/// them as they are; an event with a token that has a record adds its
/// readiness to that record; any other event gets a record of its own at the
/// end.
pub open spec fn fold_event(out: Seq<Event>, e: Kevent, awakener: Token) -> Seq<Event> {
    if raw_token(e) == awakener {
        out
    } else {
        match slot_of(out, raw_token(e)) {
            Some(i) => out.update(
                i,
                Event { kind: out[i].kind.spec_union(raw_readiness(e)), token: raw_token(e) },
            ),
            None => out.push(Event { kind: raw_readiness(e), token: raw_token(e) }),
        }
    }
}

/// The records that a batch of raw events comes to, taken in the order in
/// which the kernel delivered them.
pub open spec fn coalesced(raw: Seq<Kevent>, awakener: Token) -> Seq<Event>
    decreases raw.len(),
{
    if raw.len() == 0 {
        Seq::empty()
    } else {
        fold_event(coalesced(raw.drop_last(), awakener), raw.last(), awakener)
    }
}

/// Whether some raw event of a batch carries the token.
pub open spec fn token_seen(raw: Seq<Kevent>, token: Token) -> bool {
    exists|k: int| 0 <= k < raw.len() && raw_token(#[trigger] raw[k]) == token
}

/// Whether some raw event of a batch carries the wake token.
pub open spec fn wake_observed(raw: Seq<Kevent>, awakener: Token) -> bool {
    token_seen(raw, awakener)
}

/// The position of the first raw event of a batch that carries the token, if
/// there is one.
pub open spec fn first_seen(raw: Seq<Kevent>, token: Token) -> Option<int>
    decreases raw.len(),
{
    if raw.len() == 0 {
        None
    } else {
        match first_seen(raw.drop_last(), token) {
            Some(k) => Some(k),
            None => if raw_token(raw.last()) == token {
                Some(raw.len() - 1)
            } else {
                None
            },
        }
    }
}

/// The union of what those raw events of a batch report that carry the
/// token.
pub open spec fn merged_readiness(raw: Seq<Kevent>, token: Token) -> Ready
    decreases raw.len(),
{
    if raw.len() == 0 {
        Ready { bits: 0 }
    } else if raw_token(raw.last()) == token {
        merged_readiness(raw.drop_last(), token).spec_union(raw_readiness(raw.last()))
    } else {
        merged_readiness(raw.drop_last(), token)
    }
}

/// Whether some raw event of a batch carries the token and reports a
/// condition of the mask.
pub open spec fn some_event_reports(raw: Seq<Kevent>, token: Token, mask: usize) -> bool {
    exists|k: int|
        0 <= k < raw.len() && raw_token(#[trigger] raw[k]) == token && raw_readiness(raw[k]).bits
            & mask != 0
}

/// What makes a sequence of records the result of a batch: no record has the
/// wake token; no two records have the same token; every record has the
/// token of some raw event, and holds the union of what the raw events with
/// that token report; every raw event without the wake token has a record;
/// and the records stand in the order in which their tokens were first seen.
pub open spec fn one_record_per_token(raw: Seq<Kevent>, awakener: Token, out: Seq<Event>) -> bool {
    &&& forall|i: int| 0 <= i < out.len() ==> (#[trigger] out[i]).token != awakener
    &&& forall|i: int, j: int|
        0 <= i < j < out.len() ==> (#[trigger] out[i]).token != (#[trigger] out[j]).token
    &&& forall|i: int| 0 <= i < out.len() ==> token_seen(raw, (#[trigger] out[i]).token)
    &&& forall|i: int|
        0 <= i < out.len() ==> (#[trigger] out[i]).kind == merged_readiness(raw, out[i].token)
    &&& forall|k: int|
        0 <= k < raw.len() && raw_token(#[trigger] raw[k]) != awakener ==> slot_of(
            out,
            raw_token(raw[k]),
        ) is Some
    &&& forall|i: int, j: int|
        0 <= i < j < out.len() ==> first_seen(raw, (#[trigger] out[i]).token) is Some && first_seen(
            raw,
            (#[trigger] out[j]).token,
        ) is Some && first_seen(raw, out[i].token)->Some_0 < first_seen(raw, out[j].token)->Some_0
}

/// A slot that `slot_of` names holds the token, and no earlier one does; where
/// it names none, no record holds the token.
pub proof fn lemma_slot_of(out: Seq<Event>, token: Token)
    ensures
        match slot_of(out, token) {
            Some(i) => 0 <= i < out.len() && out[i].token == token && forall|j: int|
                0 <= j < i ==> (#[trigger] out[j]).token != token,
            None => forall|j: int| 0 <= j < out.len() ==> (#[trigger] out[j]).token != token,
        },
    decreases out.len(),
{
    if out.len() > 0 {
        lemma_slot_of(out.drop_last(), token);
        assert(forall|j: int| 0 <= j < out.len() - 1 ==> out[j] == out.drop_last()[j]);
    }
}


/// A new record at the end takes the slot of its token where the token had
/// none, and leaves every other slot where it was.
pub proof fn lemma_slot_of_push(out: Seq<Event>, ev: Event, token: Token)
    ensures
        slot_of(out.push(ev), token) == match slot_of(out, token) {
            Some(i) => Some(i),
            None => if ev.token == token {
                Some(out.len() as int)
            } else {
                None
            },
        },
{
    assert(out.push(ev).drop_last() =~= out);
}

/// A record that changes its readiness and keeps its token leaves every slot
/// where it was.
pub proof fn lemma_slot_of_update(out: Seq<Event>, i: int, ev: Event, token: Token)
    requires
        0 <= i < out.len(),
        ev.token == out[i].token,
    ensures
        slot_of(out.update(i, ev), token) == slot_of(out, token),
    decreases out.len(),
{
    let upd = out.update(i, ev);
    if i == out.len() - 1 {
        assert(upd.drop_last() =~= out.drop_last());
    } else {
        assert(upd.drop_last() =~= out.drop_last().update(i, ev));
        lemma_slot_of_update(out.drop_last(), i, ev, token);
    }
}

/// A position that `first_seen` names holds the token, and no earlier one
/// does; it names one exactly where the token is seen.
pub proof fn lemma_first_seen(raw: Seq<Kevent>, token: Token)
    ensures
        first_seen(raw, token) is Some <==> token_seen(raw, token),
        match first_seen(raw, token) {
            Some(k) => 0 <= k < raw.len() && raw_token(raw[k]) == token && forall|j: int|
                0 <= j < k ==> raw_token(#[trigger] raw[j]) != token,
            None => forall|j: int| 0 <= j < raw.len() ==> raw_token(#[trigger] raw[j]) != token,
        },
    decreases raw.len(),
{
    if raw.len() > 0 {
        lemma_first_seen(raw.drop_last(), token);
        assert(forall|j: int| 0 <= j < raw.len() - 1 ==> raw[j] == raw.drop_last()[j]);
        match first_seen(raw, token) {
            Some(k) => {
                assert(raw_token(raw[k]) == token);
            },
            None => {},
        }
    }
}

/// A token that no raw event carries has nothing to merge.
pub proof fn lemma_unseen_token(raw: Seq<Kevent>, token: Token)
    requires
        !token_seen(raw, token),
    ensures
        merged_readiness(raw, token) == (Ready { bits: 0 }),
    decreases raw.len(),
{
    if raw.len() > 0 {
        let init = raw.drop_last();
        assert(raw_token(raw[raw.len() - 1]) != token);
        assert forall|k: int| 0 <= k < init.len() implies raw_token(#[trigger] init[k])
            != token by {
            assert(init[k] == raw[k]);
        }
        lemma_unseen_token(init, token);
    }
}

/// A token that is seen in a batch is seen in every longer batch, at the
/// same first position.
pub proof fn lemma_seen_stays(raw: Seq<Kevent>, token: Token)
    requires
        raw.len() > 0,
        token_seen(raw.drop_last(), token),
    ensures
        token_seen(raw, token),
        first_seen(raw, token) == first_seen(raw.drop_last(), token),
        first_seen(raw, token) is Some,
        first_seen(raw, token)->Some_0 < raw.len() - 1,
{
    let init = raw.drop_last();
    let k: int = choose|k: int| 0 <= k < init.len() && raw_token(#[trigger] init[k]) == token;
    assert(raw[k] == init[k]);
    lemma_first_seen(init, token);
}

/// The records of a batch are one per token: see `one_record_per_token`.
pub proof fn lemma_coalesced_records(raw: Seq<Kevent>, awakener: Token)
    ensures
        one_record_per_token(raw, awakener, coalesced(raw, awakener)),
    decreases raw.len(),
{
    let new = coalesced(raw, awakener);
    if raw.len() > 0 {
        let init = raw.drop_last();
        let e = raw.last();
        let t = raw_token(e);
        let r = raw_readiness(e);
        let out = coalesced(init, awakener);
        lemma_coalesced_records(init, awakener);
        lemma_slot_of(out, t);
        lemma_first_seen(raw, t);
        assert(raw_token(raw[raw.len() - 1]) == t);
        assert(forall|k: int| 0 <= k < init.len() ==> init[k] == raw[k]);
        assert forall|i: int| 0 <= i < out.len() implies token_seen(raw, (#[trigger] out[i]).token)
            && first_seen(raw, out[i].token) == first_seen(init, out[i].token) && first_seen(
            raw,
            out[i].token,
        ) is Some && first_seen(raw, out[i].token)->Some_0 < raw.len() - 1 by {
            lemma_seen_stays(raw, out[i].token);
        }
        if t == awakener {
            assert(new == out);
        } else {
            match slot_of(out, t) {
                Some(s) => {
                    let ev = Event { kind: out[s].kind.spec_union(r), token: t };
                    assert(new == out.update(s, ev));
                    assert forall|k: int|
                        0 <= k < raw.len() && raw_token(#[trigger] raw[k])
                            != awakener implies slot_of(new, raw_token(raw[k])) is Some by {
                        lemma_slot_of_update(out, s, ev, raw_token(raw[k]));
                        if k < init.len() {
                            assert(raw_token(init[k]) != awakener);
                        }
                    }
                    assert forall|i: int| 0 <= i < new.len() implies (#[trigger] new[i]).kind
                        == merged_readiness(raw, new[i].token) by {
                        if i != s {
                            assert(new[i] == out[i]);
                            assert(out[i].token != out[s].token);
                        }
                    }
                    assert forall|i: int| 0 <= i < new.len() implies (#[trigger] new[i]).token
                        == out[i].token by {}
                },
                None => {
                    let ev = Event { kind: r, token: t };
                    assert(new == out.push(ev));
                    assert(!token_seen(init, t)) by {
                        if token_seen(init, t) {
                            let k: int = choose|k: int|
                                0 <= k < init.len() && raw_token(#[trigger] init[k]) == t;
                            assert(raw_token(init[k]) != awakener);
                        }
                    }
                    lemma_unseen_token(init, t);
                    lemma_first_seen(init, t);
                    crate::ready::lemma_union_laws(r, r, r);
                    assert(merged_readiness(raw, t) == r);
                    assert forall|k: int|
                        0 <= k < raw.len() && raw_token(#[trigger] raw[k])
                            != awakener implies slot_of(new, raw_token(raw[k])) is Some by {
                        lemma_slot_of_push(out, ev, raw_token(raw[k]));
                        if k < init.len() {
                            assert(raw_token(init[k]) != awakener);
                        }
                    }
                    assert forall|i: int| 0 <= i < new.len() implies (#[trigger] new[i]).kind
                        == merged_readiness(raw, new[i].token) by {
                        if i < out.len() {
                            assert(new[i] == out[i]);
                        }
                    }
                    assert forall|i: int, j: int|
                        0 <= i < j < new.len() implies (#[trigger] new[i]).token
                        != (#[trigger] new[j]).token && first_seen(raw, new[i].token) is Some
                        && first_seen(raw, new[j].token) is Some && first_seen(
                        raw,
                        new[i].token,
                    )->Some_0 < first_seen(raw, new[j].token)->Some_0 by {
                        assert(new[i] == out[i]);
                        if j < out.len() {
                            assert(new[j] == out[j]);
                        }
                    }
                },
            }
        }
    }
}

/// What one raw event reports, condition by condition: its filter gives the
/// direction, its flags give error and hangup.
pub proof fn lemma_raw_readiness_members(e: Kevent)
    ensures
        raw_readiness(e).is_readable() <==> e.filter == EVFILT_READ,
        raw_readiness(e).is_writable() <==> e.filter == EVFILT_WRITE,
        raw_readiness(e).is_error() <==> raw_is_error(e),
        raw_readiness(e).is_hup() <==> raw_is_hup(e),
{
    let d: usize = if e.filter == EVFILT_READ {
        1
    } else if e.filter == EVFILT_WRITE {
        2
    } else {
        0
    };
    let x: usize = if raw_is_error(e) {
        4
    } else {
        0
    };
    let h: usize = if raw_is_hup(e) {
        8
    } else {
        0
    };
    assert((d == 0 || d == 1 || d == 2) && (x == 0 || x == 4) && (h == 0 || h == 8) ==> {
        &&& (((d + x + h) as usize) & 1 != 0 <==> d == 1)
        &&& (((d + x + h) as usize) & 2 != 0 <==> d == 2)
        &&& (((d + x + h) as usize) & 4 != 0 <==> x == 4)
        &&& (((d + x + h) as usize) & 8 != 0 <==> h == 8)
    }) by (bit_vector);
}

/// A record of merged readiness holds a condition exactly when one of the raw
/// events with its token reports it.
pub proof fn lemma_merged_members(raw: Seq<Kevent>, token: Token, mask: usize)
    ensures
        merged_readiness(raw, token).bits & mask != 0 <==> some_event_reports(raw, token, mask),
    decreases raw.len(),
{
    if raw.len() == 0 {
        assert(0usize & mask == 0) by (bit_vector);
    } else {
        let init = raw.drop_last();
        let e = raw.last();
        lemma_merged_members(init, token, mask);
        assert(forall|k: int| 0 <= k < init.len() ==> init[k] == raw[k]);
        let x: usize = merged_readiness(init, token).bits;
        let y: usize = raw_readiness(e).bits;
        assert(((x | y) & mask != 0) <==> (x & mask != 0 || y & mask != 0)) by (bit_vector);
        if some_event_reports(init, token, mask) {
            let k: int = choose|k: int|
                0 <= k < init.len() && raw_token(#[trigger] init[k]) == token && raw_readiness(
                    init[k],
                ).bits & mask != 0;
            assert(raw_token(raw[k]) == token && raw_readiness(raw[k]).bits & mask != 0);
        }
        if raw_token(e) == token && y & mask != 0 {
            assert(raw_token(raw[raw.len() - 1]) == token);
        }
        if some_event_reports(raw, token, mask) {
            let k: int = choose|k: int|
                0 <= k < raw.len() && raw_token(#[trigger] raw[k]) == token && raw_readiness(
                    raw[k],
                ).bits & mask != 0;
            if k < init.len() {
                assert(raw_token(init[k]) == token && raw_readiness(init[k]).bits & mask != 0);
            }
        }
    }
}

/// The token of a record that a batch calls for has a slot in every sequence
/// of records that is the result of the batch.
proof fn lemma_token_has_slot(raw: Seq<Kevent>, awakener: Token, out: Seq<Event>, token: Token)
    requires
        one_record_per_token(raw, awakener, out),
        token_seen(raw, token),
        token != awakener,
    ensures
        slot_of(out, token) is Some,
        0 <= slot_of(out, token)->Some_0 < out.len(),
        out[slot_of(out, token)->Some_0].token == token,
{
    let k: int = choose|k: int| 0 <= k < raw.len() && raw_token(#[trigger] raw[k]) == token;
    assert(raw_token(raw[k]) != awakener);
    lemma_slot_of(out, token);
}

/// Two results of one batch have the same token at every position that both
/// have.
proof fn lemma_results_agree_at(
    raw: Seq<Kevent>,
    awakener: Token,
    a: Seq<Event>,
    b: Seq<Event>,
    i: int,
)
    requires
        one_record_per_token(raw, awakener, a),
        one_record_per_token(raw, awakener, b),
        0 <= i < a.len(),
        i < b.len(),
    ensures
        a[i].token == b[i].token,
    decreases i,
{
    assert forall|j: int| 0 <= j < i implies a[j].token == b[j].token by {
        lemma_results_agree_at(raw, awakener, a, b, j);
    }
    let ta = a[i].token;
    let tb = b[i].token;
    if ta != tb {
        lemma_token_has_slot(raw, awakener, b, ta);
        lemma_token_has_slot(raw, awakener, a, tb);
        let j: int = slot_of(b, ta)->Some_0;
        let k: int = slot_of(a, tb)->Some_0;
        assert(b[j].token == ta);
        assert(a[k].token == tb);
        if j < i {
            assert(a[j].token == a[i].token);
        }
        if k < i {
            assert(b[k].token == b[i].token);
        }
        assert(i < j && i < k);
        assert(first_seen(raw, b[i].token)->Some_0 < first_seen(raw, b[j].token)->Some_0);
        assert(first_seen(raw, a[i].token)->Some_0 < first_seen(raw, a[k].token)->Some_0);
    }
}

/// A batch has one result only: what `one_record_per_token` asks of the
/// records leaves nothing open.
pub proof fn lemma_result_is_unique(raw: Seq<Kevent>, awakener: Token, a: Seq<Event>, b: Seq<Event>)
    requires
        one_record_per_token(raw, awakener, a),
        one_record_per_token(raw, awakener, b),
    ensures
        a == b,
{
    assert forall|i: int| 0 <= i < a.len() && i < b.len() implies a[i] == b[i] by {
        lemma_results_agree_at(raw, awakener, a, b, i);
    }
    if a.len() < b.len() {
        let n: int = a.len() as int;
        lemma_token_has_slot(raw, awakener, a, b[n].token);
        let j: int = slot_of(a, b[n].token)->Some_0;
        assert(a[j] == b[j]);
        assert(b[j].token == b[n].token);
    }
    if b.len() < a.len() {
        let n: int = b.len() as int;
        lemma_token_has_slot(raw, awakener, b, a[n].token);
        let j: int = slot_of(b, a[n].token)->Some_0;
        assert(a[j] == b[j]);
        assert(a[j].token == a[n].token);
    }
    assert(a =~= b);
}

/// The records of a batch are the only sequence of records that is one per
/// token.
pub proof fn lemma_coalesced_is_the_result(raw: Seq<Kevent>, awakener: Token, out: Seq<Event>)
    ensures
        one_record_per_token(raw, awakener, out) <==> out == coalesced(raw, awakener),
{
    lemma_coalesced_records(raw, awakener);
    if one_record_per_token(raw, awakener, out) {
        lemma_result_is_unique(raw, awakener, out, coalesced(raw, awakener));
    }
}

/// Two raw events with one token, which is not the wake token, come to one
/// record, which holds the union of what the two report. Where one is of the
/// read direction and the other of the write direction, the record is both
/// readable and writable.
pub proof fn lemma_pair_merges(a: Kevent, b: Kevent, awakener: Token)
    requires
        raw_token(a) == raw_token(b),
        raw_token(a) != awakener,
    ensures
        coalesced(seq![a, b], awakener) == seq![
            Event { kind: raw_readiness(a).spec_union(raw_readiness(b)), token: raw_token(a) },
        ],
        a.filter == EVFILT_READ && b.filter == EVFILT_WRITE ==> raw_readiness(a).spec_union(
            raw_readiness(b),
        ).is_readable() && raw_readiness(a).spec_union(raw_readiness(b)).is_writable(),
{
    let raw = seq![a, b];
    let one = seq![a];
    let first = Event { kind: raw_readiness(a), token: raw_token(a) };
    assert(raw.drop_last() =~= one);
    assert(one.drop_last() =~= Seq::<Kevent>::empty());
    assert(coalesced(one.drop_last(), awakener) =~= Seq::<Event>::empty());
    assert(slot_of(Seq::<Event>::empty(), raw_token(a)) is None);
    assert(coalesced(one, awakener) =~= seq![first]);
    lemma_slot_of_push(Seq::<Event>::empty(), first, raw_token(a));
    assert(Seq::<Event>::empty().push(first) =~= seq![first]);
    assert(slot_of(seq![first], raw_token(b)) == Some(0int));
    assert(coalesced(raw, awakener) =~= seq![
        Event { kind: raw_readiness(a).spec_union(raw_readiness(b)), token: raw_token(a) },
    ]);
    lemma_raw_readiness_members(a);
    lemma_raw_readiness_members(b);
    crate::ready::lemma_union_members(raw_readiness(a), raw_readiness(b));
}

/// A batch without raw events comes to no record and to no wake.
pub proof fn lemma_idle_batch(awakener: Token)
    ensures
        coalesced(Seq::<Kevent>::empty(), awakener) == Seq::<Event>::empty(),
        !wake_observed(Seq::<Kevent>::empty(), awakener),
{
}

/// The wake token is never the token of a record, and a wake is observed
/// exactly when a raw event carries the wake token.
pub proof fn lemma_wake_token_is_kept_back(raw: Seq<Kevent>, awakener: Token)
    ensures
        forall|i: int|
            0 <= i < coalesced(raw, awakener).len() ==> (#[trigger] coalesced(
                raw,
                awakener,
            )[i]).token != awakener,
        wake_observed(raw, awakener) <==> exists|k: int|
            0 <= k < raw.len() && (#[trigger] raw[k]).udata == awakener.0,
{
    lemma_coalesced_records(raw, awakener);
    if wake_observed(raw, awakener) {
        let k: int = choose|k: int| 0 <= k < raw.len() && raw_token(#[trigger] raw[k]) == awakener;
        assert(raw[k].udata == awakener.0);
    }
    if exists|k: int| 0 <= k < raw.len() && (#[trigger] raw[k]).udata == awakener.0 {
        let k: int = choose|k: int| 0 <= k < raw.len() && (#[trigger] raw[k]).udata == awakener.0;
        assert(raw_token(raw[k]) == awakener);
    }
}

} // verus!
