//! Responses delivered in submission order.
//!
//! Each submitted request gets the next slot number and an empty slot at the back of
//! the queue. A completion fills its slot, wherever it stands; then every filled slot
//! at the front leaves the queue, in order, and is delivered to its caller.
use vstd::prelude::*;

verus! {

/// A slot: its number, the caller waiting for it, and the response once it is filled
/// (a response is itself `None` where the call failed).
pub type Slot = (u64, u64, Option<Option<Vec<u8>>>);

#[verifier::external_type_specification]
#[verifier::external_body]
#[verifier::reject_recursive_types(A)]
pub struct ExVector<A>(im::Vector<A>);

/// What an `im::Vector` of slots holds, front first.
pub uninterp spec fn slots_of(v: im::Vector<Slot>) -> Seq<Slot>;

/// Relies on im's `Vector::new`: an empty vector.
#[verifier::external_body]
fn slots_new() -> (r: im::Vector<Slot>)
    ensures
        slots_of(r) == Seq::<Slot>::empty(),
{
    im::Vector::new()
}

/// Relies on im's `Vector::len`.
#[verifier::external_body]
fn slots_len(v: &im::Vector<Slot>) -> (r: usize)
    ensures
        r == slots_of(*v).len(),
{
    v.len()
}

/// Relies on im's `Vector::push_back`: appends at the back.
#[verifier::external_body]
fn slots_push_back(v: &mut im::Vector<Slot>, x: Slot)
    ensures
        slots_of(*final(v)) == slots_of(*old(v)).push(x),
{
    v.push_back(x)
}

/// Relies on im's `Vector::push_front`: inserts at the front.
#[verifier::external_body]
fn slots_push_front(v: &mut im::Vector<Slot>, x: Slot)
    ensures
        slots_of(*final(v)) == seq![x] + slots_of(*old(v)),
{
    v.push_front(x)
}

/// Relies on im's `Vector::pop_front`: removes and returns the front, if any.
#[verifier::external_body]
fn slots_pop_front(v: &mut im::Vector<Slot>) -> (r: Option<Slot>)
    ensures
        slots_of(*old(v)).len() == 0 ==> r is None && slots_of(*final(v)) == slots_of(*old(v)),
        slots_of(*old(v)).len() > 0 ==> r == Some(slots_of(*old(v))[0]) && slots_of(*final(v))
            == slots_of(*old(v)).drop_first(),
{
    v.pop_front()
}

/// Relies on im's `Vector::set`: replaces the element at `i` and returns the old one. It
/// panics where `i` is out of bounds.
#[verifier::external_body]
fn slots_set(v: &mut im::Vector<Slot>, i: usize, x: Slot) -> (r: Slot)
    requires
        i < slots_of(*old(v)).len(),
    ensures
        r == slots_of(*old(v))[i as int],
        slots_of(*final(v)) == slots_of(*old(v)).update(i as int, x),
{
    v.set(i, x)
}

/// Relies on im's `Vector::binary_search_by_key` on the slot number. `Ok(i)` comes only
/// where element `i` has that number; on a vector sorted by number, `Err` means that no
/// element has it.
#[verifier::external_body]
fn slots_find(v: &im::Vector<Slot>, slot: u64) -> (r: Result<usize, usize>)
    ensures
        r is Ok ==> r->Ok_0 < slots_of(*v).len() && slots_of(*v)[r->Ok_0 as int].0 == slot,
        (forall|i: int, j: int|
            0 <= i < j < slots_of(*v).len() ==> slots_of(*v)[i].0 < slots_of(*v)[j].0) && r is Err
            ==> forall|i: int| 0 <= i < slots_of(*v).len() ==> slots_of(*v)[i].0 != slot,
{
    v.binary_search_by_key(&slot, |e| e.0)
}

/// Slot numbers run without a gap up to `next - 1` at the back.
pub open spec fn contiguous(slots: Seq<Slot>, next: nat) -> bool {
    slots.len() <= next && forall|i: int|
        0 <= i < slots.len() ==> #[trigger] slots[i].0 == next - slots.len() + i
}

/// The front slot, if any, is still empty.
pub open spec fn front_pending(slots: Seq<Slot>) -> bool {
    slots.len() > 0 ==> slots[0].2 is None
}

/// `slots` with slot `slot` filled with `resp`, if that slot is there and still empty.
pub open spec fn fill(slots: Seq<Slot>, slot: u64, resp: Option<Vec<u8>>) -> Seq<Slot> {
    if slots.len() > 0 {
        let i = slot - slots[0].0;
        if 0 <= i < slots.len() && slots[i].2 is None {
            slots.update(i, (slots[i].0, slots[i].1, Some(resp)))
        } else {
            slots
        }
    } else {
        slots
    }
}

/// The filled slots at the front, in order, and what stays behind them.
pub open spec fn drain(slots: Seq<Slot>) -> (Seq<Slot>, Seq<Slot>)
    decreases slots.len(),
{
    if slots.len() > 0 && slots[0].2 is Some {
        let (d, r) = drain(slots.drop_first());
        (seq![slots[0]] + d, r)
    } else {
        (Seq::empty(), slots)
    }
}

/// A completion: fill the slot, then deliver the filled front.
pub open spec fn complete(slots: Seq<Slot>, slot: u64, resp: Option<Vec<u8>>) -> (
    Seq<Slot>,
    Seq<Slot>,
) {
    drain(fill(slots, slot, resp))
}

/// A run of completions, in the order they arrive: all that is delivered, and what stays.
pub open spec fn run(slots: Seq<Slot>, events: Seq<(u64, Option<Vec<u8>>)>) -> (
    Seq<Slot>,
    Seq<Slot>,
)
    decreases events.len(),
{
    if events.len() == 0 {
        (Seq::empty(), slots)
    } else {
        let (d1, r1) = complete(slots, events[0].0, events[0].1);
        let (d2, r2) = run(r1, events.drop_first());
        (d1 + d2, r2)
    }
}

/// What `drain` splits off is filled and, with what stays, makes up the whole; what
/// stays starts with an empty slot.
pub proof fn lemma_drain(slots: Seq<Slot>)
    ensures
        drain(slots).0 + drain(slots).1 == slots,
        forall|i: int| 0 <= i < drain(slots).0.len() ==> (#[trigger] drain(slots).0[i]).2 is Some,
        front_pending(drain(slots).1),
    decreases slots.len(),
{
    if slots.len() > 0 && slots[0].2 is Some {
        lemma_drain(slots.drop_first());
        let (d, r) = drain(slots.drop_first());
        assert(d + r == slots.drop_first());
        assert(seq![slots[0]] + d + r =~= seq![slots[0]] + (d + r));
        assert(seq![slots[0]] + slots.drop_first() =~= slots);
        assert forall|i: int| 0 <= i < drain(slots).0.len() implies (
        #[trigger] drain(slots).0[i]).2 is Some by {
            if i > 0 {
                assert(drain(slots).0[i] == d[i - 1]);
            }
        }
    }
}

/// Some completion in `events` is for slot `n`.
pub open spec fn has_event(events: Seq<(u64, Option<Vec<u8>>)>, n: u64) -> bool {
    exists|j: int| 0 <= j < events.len() && events[j].0 == n
}

/// Slot `n` is in `slots`.
pub open spec fn has_slot(slots: Seq<Slot>, n: u64) -> bool {
    exists|i: int| 0 <= i < slots.len() && slots[i].0 == n
}

/// Slot `n` is in `slots` and still empty.
pub open spec fn waiting_at(slots: Seq<Slot>, n: u64) -> bool {
    exists|i: int| 0 <= i < slots.len() && slots[i].0 == n && slots[i].2 is None
}

/// No two completions in `events` are for the same slot.
pub open spec fn distinct_events(events: Seq<(u64, Option<Vec<u8>>)>) -> bool {
    forall|i: int, j: int| 0 <= i < j < events.len() ==> #[trigger] events[i].0 != #[trigger] events[j].0
}

/// Every completion names a distinct slot that is waiting in `slots`, and every waiting
/// slot has a completion.
pub open spec fn completes_waiting(slots: Seq<Slot>, events: Seq<(u64, Option<Vec<u8>>)>) -> bool {
    &&& distinct_events(events)
    &&& forall|j: int| 0 <= j < events.len() ==> waiting_at(slots, #[trigger] events[j].0)
    &&& forall|i: int|
        0 <= i < slots.len() && slots[i].2 is None ==> has_event(events, #[trigger] slots[i].0)
}

/// Delivered slots match `slots` one for one: same numbers, same callers, same order.
pub open spec fn delivers_in_order(delivered: Seq<Slot>, slots: Seq<Slot>) -> bool {
    delivered.len() == slots.len() && forall|i: int|
        0 <= i < slots.len() ==> (#[trigger] delivered[i]).0 == slots[i].0 && delivered[i].1
            == slots[i].1
}

proof fn lemma_run_delivers_all(slots: Seq<Slot>, next: nat, events: Seq<(u64, Option<Vec<u8>>)>)
    requires
        contiguous(slots, next),
        front_pending(slots),
        completes_waiting(slots, events),
    ensures
        run(slots, events).1.len() == 0,
        delivers_in_order(run(slots, events).0, slots),
    decreases events.len(),
{
    if events.len() == 0 {
        if slots.len() > 0 {
            assert(slots[0].2 is None);
            assert(has_event(events, slots[0].0));
        }
        assert(run(slots, events).0 =~= Seq::<Slot>::empty());
    } else {
        let s = events[0].0;
        assert(waiting_at(slots, s));
        let i0 = choose|i: int| 0 <= i < slots.len() && slots[i].0 == s && slots[i].2 is None;
        assert(slots[i0].0 == next - slots.len() + i0);
        assert(slots[0].0 == next - slots.len());
        let filled = fill(slots, s, events[0].1);
        assert(filled == slots.update(i0, (slots[i0].0, slots[i0].1, Some(events[0].1))));
        lemma_drain(filled);
        let (d1, r1) = drain(filled);
        let rest = events.drop_first();
        let k = d1.len() as int;
        assert(r1 =~= filled.skip(k)) by {
            assert(filled =~= d1 + r1);
        }
        assert(d1 =~= filled.take(k)) by {
            assert(filled =~= d1 + r1);
        }
        assert(contiguous(r1, next)) by {
            assert forall|i: int| 0 <= i < r1.len() implies #[trigger] r1[i].0 == next - r1.len() + i by {
                assert(r1[i] == filled[i + k]);
                assert(slots[i + k].0 == next - slots.len() + i + k);
            }
        }
        assert forall|j: int| 0 <= j < rest.len() implies waiting_at(r1, #[trigger] rest[j].0) by {
            assert(rest[j] == events[j + 1]);
            assert(events[0].0 != events[j + 1].0);
            assert(waiting_at(slots, events[j + 1].0));
            let i = choose|i: int| 0 <= i < slots.len() && slots[i].0 == events[j + 1].0 && slots[i].2 is None;
            assert(i != i0);
            assert(filled[i] == slots[i]);
            if i < k {
                assert(d1[i] == filled[i]);
            }
            assert(r1[i - k] == filled[i]);
        }
        assert forall|i: int| 0 <= i < r1.len() && r1[i].2 is None implies has_event(rest, #[trigger] r1[i].0) by {
            assert(r1[i] == filled[i + k]);
            assert(i + k != i0);
            assert(filled[i + k] == slots[i + k]);
            assert(has_event(events, slots[i + k].0));
            let j = choose|j: int| 0 <= j < events.len() && events[j].0 == slots[i + k].0;
            assert(slots[i + k].0 == next - slots.len() + i + k);
            assert(j != 0);
            assert(rest[j - 1] == events[j]);
        }
        assert forall|a: int, b: int| 0 <= a < b < rest.len() implies #[trigger] rest[a].0
            != #[trigger] rest[b].0 by {
            assert(rest[a] == events[a + 1]);
            assert(rest[b] == events[b + 1]);
        }
        assert(completes_waiting(r1, rest));
        lemma_run_delivers_all(r1, next, rest);
        let (d2, r2) = run(r1, rest);
        assert(run(slots, events) == (d1 + d2, r2));
        assert forall|i: int| 0 <= i < slots.len() implies (#[trigger] (d1 + d2)[i]).0 == slots[i].0
            && (d1 + d2)[i].1 == slots[i].1 by {
            if i < k {
                assert((d1 + d2)[i] == filled[i]);
            } else {
                assert((d1 + d2)[i] == d2[i - k]);
                assert(r1[i - k] == filled[i]);
            }
        }
    }
}

/// Whatever order the responses to waiting requests come back in, each is delivered to
/// its own caller in the order the requests were submitted, and none is left behind.
pub proof fn lemma_delivery_in_submission_order(
    slots: Seq<Slot>,
    next: nat,
    events: Seq<(u64, Option<Vec<u8>>)>,
)
    requires
        contiguous(slots, next),
        forall|i: int| 0 <= i < slots.len() ==> (#[trigger] slots[i]).2 is None,
        distinct_events(events),
        forall|j: int| 0 <= j < events.len() ==> has_slot(slots, #[trigger] events[j].0),
        forall|i: int| 0 <= i < slots.len() ==> has_event(events, #[trigger] slots[i].0),
    ensures
        run(slots, events).1.len() == 0,
        delivers_in_order(run(slots, events).0, slots),
{
    assert forall|j: int| 0 <= j < events.len() implies waiting_at(slots, #[trigger] events[j].0) by {
        assert(has_slot(slots, events[j].0));
        let i = choose|i: int| 0 <= i < slots.len() && slots[i].0 == events[j].0;
        assert(slots[i].2 is None);
    }
    assert forall|i: int| 0 <= i < slots.len() && slots[i].2 is None implies has_event(events, #[trigger] slots[i].0) by {
    }
    lemma_run_delivers_all(slots, next, events);
}

/// A response handed to the caller that waits for it.
#[derive(Debug)]
pub struct Delivery {
    pub slot: u64,
    pub caller: u64,
    pub response: Option<Vec<u8>>,
}

/// `ds` are the delivered slots `d`, one for one.
pub open spec fn delivered_as(ds: Seq<Delivery>, d: Seq<Slot>) -> bool {
    ds.len() == d.len() && forall|i: int|
        0 <= i < d.len() ==> (#[trigger] ds[i].slot, ds[i].caller, Some(ds[i].response)) == d[i]
}

/// Slots of requests in flight, front first, and the number the next one gets.
pub struct ResponseQueue {
    next_slot: u64,
    slots: im::Vector<Slot>,
}

impl ResponseQueue {
    /// The number the next request gets.
    pub closed spec fn next(&self) -> nat {
        self.next_slot as nat
    }

    /// The slots in the queue, front first.
    pub closed spec fn slots(&self) -> Seq<Slot> {
        slots_of(self.slots)
    }

    /// Slot numbers run without a gap up to the next number, and the front slot is empty.
    pub open spec fn wf(&self) -> bool {
        contiguous(self.slots(), self.next()) && front_pending(self.slots())
    }

    /// An empty queue whose first slot will be number 0.
    pub fn new() -> (r: Self)
        ensures
            r.wf(),
            r.next() == 0,
            r.slots() == Seq::<Slot>::empty(),
    {
        ResponseQueue { next_slot: 0, slots: slots_new() }
    }

    /// How many requests are still waiting or held back.
    pub fn len(&self) -> (r: usize)
        ensures
            r == self.slots().len(),
    {
        slots_len(&self.slots)
    }

    /// Opens an empty slot at the back for `caller` and returns its number; `None` once
    /// the numbers are used up.
    pub fn submit(&mut self, caller: u64) -> (r: Option<u64>)
        requires
            old(self).wf(),
        ensures
            final(self).wf(),
            old(self).next() < u64::MAX ==> r == Some(old(self).next() as u64) && final(self).next()
                == old(self).next() + 1 && final(self).slots() == old(self).slots().push(
                (old(self).next() as u64, caller, None),
            ),
            old(self).next() >= u64::MAX ==> r is None && *final(self) == *old(self),
    {
        if self.next_slot == u64::MAX {
            return None;
        }
        let slot = self.next_slot;
        slots_push_back(&mut self.slots, (slot, caller, None));
        self.next_slot = slot + 1;
        proof {
            let s = self.slots();
            assert forall|i: int| 0 <= i < s.len() implies #[trigger] s[i].0 == self.next() - s.len() + i by {
                if i < s.len() - 1 {
                    assert(s[i] == old(self).slots()[i]);
                }
            }
        }
        Some(slot)
    }

    /// Fills slot `slot` with `response`, if it is waiting, then delivers every filled
    /// slot at the front, in order.
    pub fn complete(&mut self, slot: u64, response: Option<Vec<u8>>) -> (r: Vec<Delivery>)
        requires
            old(self).wf(),
        ensures
            final(self).wf(),
            final(self).next() == old(self).next(),
            final(self).slots() == complete(old(self).slots(), slot, response).1,
            delivered_as(r@, complete(old(self).slots(), slot, response).0),
    {
        let ghost s0 = self.slots();
        let ghost next = self.next();
        proof {
            lemma_drain(s0);
            assert(drain(s0).0.len() == 0) by {
                if s0.len() > 0 {
                    assert(s0[0].2 is None);
                }
            }
            assert(drain(s0).1 =~= s0);
            assert forall|i: int, j: int| 0 <= i < j < s0.len() implies s0[i].0 < s0[j].0 by {
                assert(s0[i].0 == next - s0.len() + i);
                assert(s0[j].0 == next - s0.len() + j);
            }
        }
        let pos = match slots_find(&self.slots, slot) {
            Ok(p) => p,
            Err(_) => {
                proof {
                    if s0.len() > 0 {
                        let i = slot - s0[0].0;
                        if 0 <= i < s0.len() {
                            assert(s0[i].0 == slot);
                        }
                    }
                    assert(fill(s0, slot, response) == s0);
                }
                let none: Vec<Delivery> = Vec::new();
                assert(delivered_as(none@, Seq::<Slot>::empty()));
                return none;
            },
        };
        proof {
            assert(s0[pos as int].0 == next - s0.len() + pos);
            assert(s0[0].0 == next - s0.len());
        }
        let (n, caller, res) = slots_set(&mut self.slots, pos, (slot, 0, None));
        match res {
            Some(earlier) => {
                slots_set(&mut self.slots, pos, (n, caller, Some(earlier)));
                proof {
                    assert(self.slots() =~= s0);
                    assert(fill(s0, slot, response) == s0);
                }
                let none: Vec<Delivery> = Vec::new();
                assert(delivered_as(none@, Seq::<Slot>::empty()));
                return none;
            },
            None => {
                slots_set(&mut self.slots, pos, (n, caller, Some(response)));
            },
        }
        let ghost filled = self.slots();
        proof {
            assert(filled =~= fill(s0, slot, response));
        }
        let mut out: Vec<Delivery> = Vec::new();
        loop
            invariant
                self.next() == next,
                delivered_as(out@, drain(filled).0.take(out@.len() as int)),
                out@.len() <= drain(filled).0.len(),
                drain(self.slots()).1 == drain(filled).1,
                drain(filled).0 == drain(filled).0.take(out@.len() as int) + drain(self.slots()).0,
            ensures
                self.next() == next,
                delivered_as(out@, drain(filled).0.take(out@.len() as int)),
                out@.len() <= drain(filled).0.len(),
                drain(self.slots()).1 == drain(filled).1,
                drain(filled).0 == drain(filled).0.take(out@.len() as int) + drain(self.slots()).0,
                front_pending(self.slots()),
            decreases slots_of(self.slots).len(),
        {
            let ghost cur = self.slots();
            proof {
                lemma_drain(cur);
            }
            match slots_pop_front(&mut self.slots) {
                None => {
                    break;
                },
                Some(front) => {
                    let (n, caller, res) = front;
                    match res {
                        Some(resp) => {
                            proof {
                                assert(drain(cur).0 == seq![cur[0]] + drain(cur.drop_first()).0);
                            }
                            out.push(Delivery { slot: n, caller, response: resp });
                            proof {
                                let d = drain(filled).0;
                                let k = out@.len() as int;
                                assert(d.take(k - 1) + drain(cur).0 == d);
                                assert(d[k - 1] == cur[0]) by {
                                    assert(drain(cur).0[0] == cur[0]);
                                    assert((d.take(k - 1) + drain(cur).0)[k - 1] == drain(cur).0[0]);
                                }
                                assert(d.take(k) =~= d.take(k - 1).push(cur[0]));
                                assert(d.take(k) + drain(self.slots()).0 =~= d.take(k - 1) + drain(cur).0);
                            }
                        },
                        None => {
                            slots_push_front(&mut self.slots, (n, caller, None));
                            proof {
                                assert(self.slots() =~= cur);
                            }
                            break;
                        },
                    }
                },
            }
        }
        proof {
            let d = drain(filled).0;
            lemma_drain(self.slots());
            assert(drain(self.slots()).0.len() == 0) by {
                if self.slots().len() > 0 {
                    assert(self.slots()[0].2 is None);
                }
            }
            assert(d.take(out@.len() as int) =~= d);
            lemma_drain(filled);
            assert(contiguous(self.slots(), next)) by {
                let s = self.slots();
                let k = d.len() as int;
                assert(filled =~= d + s);
                assert forall|i: int| 0 <= i < s.len() implies #[trigger] s[i].0 == next - s.len() + i by {
                    assert(s[i] == filled[i + k]);
                    assert(filled[i + k].0 == s0[i + k].0);
                }
            }
        }
        out
    }
}

} // verus!
