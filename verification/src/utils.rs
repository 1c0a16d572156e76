//! The admission limiter and the deadline race.
//!
//! `Semaphore` is the decision core of the admission gate: a fixed array of
//! slots, each free or occupied, and a FIFO queue of parked waiters. The
//! surrounding runtime owns the actual parking and waking; it consults
//! `poll` to claim a slot or park, and `release` to free a slot and learn
//! which waiter to wake. The transitions are given as plain functions on
//! `GateState`, so the claiming and waking discipline is stated once and
//! proved of the executable steps.
//!
//! `run_with_timeout` is the decision core of the deadline race: given when
//! the operation would complete, it settles who wins against the timer.
//! The runtime races the real operation and timer and must cancel the
//! loser; which side wins is fixed here.

use vstd::prelude::*;

verus! {

use crate::port::count_true;
use crate::port::lemma_count_true_le_len;

/// The abstract state of the admission gate: one occupancy bit per slot,
/// and the identities of the parked waiters, longest-waiting first.
pub struct GateState {
    pub slots: Seq<bool>,
    pub queue: Seq<u64>,
}

/// The first free slot, scanning upward from `i`; the slot count when every
/// slot is occupied.
pub open spec fn first_free_from(slots: Seq<bool>, i: int) -> int
    decreases slots.len() - i,
{
    if i < 0 || i >= slots.len() {
        slots.len() as int
    } else if !slots[i] {
        i
    } else {
        first_free_from(slots, i + 1)
    }
}

/// Everything `first_free_from` promises: it stays in range, lands on a
/// free slot when one exists, and skips only occupied slots.
pub proof fn lemma_first_free_from(slots: Seq<bool>, i: int)
    requires
        0 <= i <= slots.len(),
    ensures
        i <= first_free_from(slots, i) <= slots.len(),
        first_free_from(slots, i) < slots.len() ==> !slots[first_free_from(slots, i)],
        forall|j: int| i <= j < first_free_from(slots, i) ==> slots[j],
    decreases slots.len() - i,
{
    if i < slots.len() && slots[i] {
        lemma_first_free_from(slots, i + 1);
    }
}

/// One acquisition attempt: claim the first free slot, or, when every slot
/// is occupied, park at the back of the queue.
pub open spec fn poll_step(s: GateState, w: u64) -> (GateState, Option<int>) {
    let i = first_free_from(s.slots, 0);
    if 0 <= i < s.slots.len() {
        (GateState { slots: s.slots.update(i, true), queue: s.queue }, Some(i))
    } else {
        (GateState { slots: s.slots, queue: s.queue.push(w) }, None)
    }
}

/// One release: free the slot, and hand back the longest-waiting parked
/// waiter, if any, as the one to wake.
pub open spec fn release_step(s: GateState, slot: int) -> (GateState, Option<u64>) {
    if s.queue.len() > 0 {
        (GateState { slots: s.slots.update(slot, false), queue: s.queue.skip(1) }, Some(
            s.queue[0],
        ))
    } else {
        (GateState { slots: s.slots.update(slot, false), queue: s.queue }, None)
    }
}

/// The counting concurrency gate: a fixed pool of slots and a FIFO wait
/// queue. At most one concurrent claimant wins a given slot; a released
/// slot wakes at most one waiter.
#[derive(Debug)]
pub struct Semaphore {
    slots: Vec<bool>,
    waiters: Vec<u64>,
    next_id: u64,
}

/// A pending acquisition: the identity under which the caller parks when
/// no slot is free.
#[derive(Debug)]
pub struct TicketFuture {
    waiter: u64,
}

impl TicketFuture {
    /// The identity of this pending acquisition.
    pub closed spec fn waiter(self) -> u64 {
        self.waiter
    }

    /// The identity of this pending acquisition.
    pub fn waiter_id(&self) -> (r: u64)
        ensures
            r == self.waiter(),
    {
        self.waiter
    }
}

/// Ownership of one claimed slot. Handing it back to `release` is the only
/// path that returns the slot to the pool.
#[derive(Debug)]
pub struct Ticket {
    slot: usize,
}

impl Ticket {
    /// The claimed slot.
    pub closed spec fn spec_slot(self) -> int {
        self.slot as int
    }

    /// The claimed slot.
    pub fn slot(&self) -> (r: usize)
        ensures
            r == self.spec_slot(),
    {
        self.slot
    }
}

impl View for Semaphore {
    type V = GateState;

    /// The slots' occupancy and the parked waiters.
    closed spec fn view(&self) -> GateState {
        GateState { slots: self.slots@, queue: self.waiters@ }
    }
}

impl Semaphore {
    /// The identity the next acquisition will park under.
    pub closed spec fn next_waiter(self) -> u64 {
        self.next_id
    }

    /// A gate with `max` slots, all free, and nobody parked.
    pub fn new(max: usize) -> (s: Self)
        ensures
            s@.slots.len() == max,
            forall|j: int| 0 <= j < max ==> !s@.slots[j],
            s@.queue == Seq::<u64>::empty(),
            s.next_waiter() == 0,
    {
        let mut slots: Vec<bool> = Vec::new();
        let mut i: usize = 0;
        while i < max
            invariant
                i <= max,
                slots@.len() == i,
                forall|j: int| 0 <= j < i ==> !slots@[j],
            decreases max - i,
        {
            slots.push(false);
            i = i + 1;
        }
        Semaphore { slots, waiters: Vec::new(), next_id: 0 }
    }

    /// Begins one acquisition: hands out a pending ticket with a fresh
    /// waiter identity and changes nothing else.
    pub fn acquire(&mut self) -> (fut: TicketFuture)
        requires
            old(self).next_waiter() < u64::MAX,
        ensures
            final(self)@ == old(self)@,
            final(self).next_waiter() == old(self).next_waiter() + 1,
            fut.waiter() == old(self).next_waiter(),
    {
        let w = self.next_id;
        self.next_id = self.next_id + 1;
        TicketFuture { waiter: w }
    }

    /// Claims the first free slot for this pending acquisition, or parks
    /// its waiter at the back of the queue when every slot is occupied.
    pub fn poll(&mut self, fut: &TicketFuture) -> (r: Option<Ticket>)
        ensures
            final(self)@ == poll_step(old(self)@, fut.waiter()).0,
            final(self).next_waiter() == old(self).next_waiter(),
            match r {
                Some(t) => poll_step(old(self)@, fut.waiter()).1 == Some(t.spec_slot()),
                None => poll_step(old(self)@, fut.waiter()).1 is None,
            },
    {
        let n = self.slots.len();
        let mut i: usize = 0;
        while i < n
            invariant
                i <= n,
                n == self.slots@.len(),
                *self == *old(self),
                first_free_from(self.slots@, 0) == first_free_from(self.slots@, i as int),
            decreases n - i,
        {
            if !self.slots[i] {
                self.slots[i] = true;
                proof {
                    assert(poll_step(old(self)@, fut.waiter()).1 == Some(i as int));
                    assert(self@.slots =~= old(self)@.slots.update(i as int, true));
                    assert(self@ == poll_step(old(self)@, fut.waiter()).0);
                }
                return Some(Ticket { slot: i });
            }
            i = i + 1;
        }
        self.waiters.push(fut.waiter);
        proof {
            assert(self@ == poll_step(old(self)@, fut.waiter()).0);
        }
        None
    }

    /// Returns a claimed slot to the pool and reports which parked waiter,
    /// if any, is to be woken: the longest-waiting one. This moves the
    /// gate's state by one `release_step`. Releasing a slot that is not
    /// occupied is a programming fault, which the precondition rules out.
    pub fn release(&mut self, ticket: Ticket) -> (woken: Option<u64>)
        requires
            0 <= ticket.spec_slot() < old(self)@.slots.len(),
            old(self)@.slots[ticket.spec_slot()],
        ensures
            final(self)@ == release_step(old(self)@, ticket.spec_slot()).0,
            final(self).next_waiter() == old(self).next_waiter(),
            woken == release_step(old(self)@, ticket.spec_slot()).1,
    {
        self.slots[ticket.slot] = false;
        let woken = if self.waiters.len() > 0 {
            let w = self.waiters.remove(0);
            Some(w)
        } else {
            None
        };
        proof {
            assert(self@.slots =~= old(self)@.slots.update(ticket.spec_slot(), false));
            if old(self)@.queue.len() > 0 {
                assert(self@.queue =~= old(self)@.queue.skip(1));
            }
            assert(self@ == release_step(old(self)@, ticket.spec_slot()).0);
        }
        woken
    }
}

/// Law of admission: a claim never pushes the number of occupied slots past
/// the slot count, so no more than `capacity` units of work ever hold a
/// permit at once.
pub proof fn lemma_occupancy_bounded(s: GateState, w: u64)
    ensures
        count_true(poll_step(s, w).0.slots) <= s.slots.len(),
        count_true(s.slots) <= s.slots.len(),
{
    lemma_count_true_le_len(s.slots);
    lemma_count_true_le_len(poll_step(s, w).0.slots);
}

/// Law of the single-slot gate: with one slot, a first acquisition claims
/// it, a second one parks instead of completing, and releasing the slot
/// wakes exactly that second, parked waiter.
pub proof fn lemma_single_slot_fifo(s: GateState, a: u64, b: u64)
    requires
        s.slots =~= seq![false],
        s.queue =~= Seq::<u64>::empty(),
    ensures
        ({
            let (s1, r1) = poll_step(s, a);
            let (s2, r2) = poll_step(s1, b);
            let (s3, w) = release_step(s2, 0);
            &&& r1 == Some(0int)
            &&& s1.slots[0]
            &&& r2 is None
            &&& s2.queue =~= seq![b]
            &&& w == Some(b)
            &&& !s3.slots[0]
            &&& s3.queue =~= Seq::<u64>::empty()
        }),
{
    let (s1, r1) = poll_step(s, a);
    assert(first_free_from(s.slots, 0) == 0);
    assert(s1.slots =~= seq![true]);
    let (s2, r2) = poll_step(s1, b);
    assert(first_free_from(s1.slots, 1) == 1);
    assert(first_free_from(s1.slots, 0) == 1);
    assert(s2.queue =~= seq![b]);
    let (s3, w) = release_step(s2, 0);
    assert(s3.slots =~= seq![false]);
}

/// Settles the race between an operation and a timer. `completion` is when
/// the operation would deliver its output, measured like `timeout_ms` from
/// the start of the race, or nothing for an operation that never completes.
/// The operation wins exactly when it completes before the timer fires;
/// otherwise the race reports a timeout and the loser is to be cancelled.
pub fn run_with_timeout<O>(timeout_ms: u64, completion: Option<(u64, O)>) -> (r: Option<O>)
    ensures
        match completion {
            Some((t, v)) => r == if t < timeout_ms {
                Some(v)
            } else {
                None::<O>
            },
            None => r is None,
        },
{
    match completion {
        Some((t, v)) => {
            if t < timeout_ms {
                Some(v)
            } else {
                None
            }
        },
        None => None,
    }
}

} // verus!
