//! The bounded log of past contacts.
//!
//! The log keeps the newest records up to its capacity; a record pushed onto a
//! full log displaces the oldest. The records live in a ring buffer of the
//! `ringbuffer` crate, whose contents are known here only by name.

use vstd::prelude::*;
use ringbuffer::{AllocRingBuffer, RingBuffer};
use crate::fixed::Fixed;
use crate::rotating::Collision;

verus! {

/// The largest capacity a log can be made with.
pub const MAX_CAPACITY: usize = 65_536;

/// The ring buffer of the `ringbuffer` crate; nothing of it is visible to proofs.
#[verifier::external_type_specification]
#[verifier::external_body]
#[verifier::reject_recursive_types(T)]
pub struct ExAllocRingBuffer<T>(AllocRingBuffer<T>);

/// The records a ring buffer holds, oldest first.
pub uninterp spec fn ring_records(ring: AllocRingBuffer<Collision>) -> Seq<Collision>;

/// The number of records a ring buffer was made to hold.
pub uninterp spec fn ring_capacity(ring: AllocRingBuffer<Collision>) -> nat;

/// The number of records ever pushed onto a ring buffer, which it counts in
/// a `usize` of its own.
pub uninterp spec fn ring_writes(ring: AllocRingBuffer<Collision>) -> nat;

/// The records after `item` is pushed onto a log of the given capacity.
pub open spec fn spec_push(records: Seq<Collision>, capacity: nat, item: Collision) -> Seq<
    Collision,
> {
    if records.len() < capacity {
        records.push(item)
    } else {
        records.drop_first().push(item)
    }
}

/// The records with every angle advanced by `delta_angle`.
pub open spec fn spec_advanced(records: Seq<Collision>, delta_angle: Fixed) -> Seq<Collision> {
    records.map_values(|c: Collision| c.spec_updated(delta_angle))
}

/// `AllocRingBuffer::new`: an empty buffer of the given capacity, on which
/// nothing has been pushed. The crate refuses a capacity of zero, and
/// allocates the next power of two; the bound keeps that allocation small.
#[verifier::external_body]
fn ring_new(capacity: usize) -> (ring: AllocRingBuffer<Collision>)
    requires
        0 < capacity <= MAX_CAPACITY,
    ensures
        ring_records(ring) == Seq::<Collision>::empty(),
        ring_capacity(ring) == capacity,
        ring_writes(ring) == 0,
{
    AllocRingBuffer::new(capacity)
}

/// `RingBuffer::push`: the item becomes the newest record; where the buffer
/// was full, its oldest record leaves. The crate counts the push in a
/// `usize`, so there must be room left in that count.
#[verifier::external_body]
fn ring_push(ring: &mut AllocRingBuffer<Collision>, item: Collision)
    requires
        ring_writes(*old(ring)) < usize::MAX,
        ring_records(*old(ring)).len() <= ring_capacity(*old(ring)),
    ensures
        ring_records(*final(ring)) == spec_push(
            ring_records(*old(ring)),
            ring_capacity(*old(ring)),
            item,
        ),
        ring_capacity(*final(ring)) == ring_capacity(*old(ring)),
        ring_writes(*final(ring)) == ring_writes(*old(ring)) + 1,
{
    ring.push(item);
}

/// `RingBuffer::iter_mut`: visits every record, oldest first, and here
/// advances the angle of each by `delta_angle`. Which records are held, and
/// in what order, stays as it was.
#[verifier::external_body]
fn ring_advance(ring: &mut AllocRingBuffer<Collision>, delta_angle: Fixed)
    ensures
        ring_records(*final(ring)) == spec_advanced(ring_records(*old(ring)), delta_angle),
        ring_capacity(*final(ring)) == ring_capacity(*old(ring)),
        ring_writes(*final(ring)) == ring_writes(*old(ring)),
{
    ring.iter_mut().for_each(|record| record.update(delta_angle));
}

/// `RingBuffer::to_vec`: copies of the records, oldest first.
#[verifier::external_body]
fn ring_to_vec(ring: &AllocRingBuffer<Collision>) -> (records: Vec<Collision>)
    ensures
        records@ == ring_records(*ring),
{
    ring.to_vec()
}

/// `RingBuffer::len`: the number of records held.
#[verifier::external_body]
fn ring_len(ring: &AllocRingBuffer<Collision>) -> (n: usize)
    ensures
        n == ring_records(*ring).len(),
{
    ring.len()
}

/// A log of the newest contacts, oldest first.
#[derive(Debug)]
pub struct CollisionList {
    ring: AllocRingBuffer<Collision>,
    capacity: usize,
    writes: usize,
}

impl View for CollisionList {
    type V = Seq<Collision>;

    /// The records held, oldest first.
    closed spec fn view(&self) -> Seq<Collision> {
        ring_records(self.ring)
    }
}

impl CollisionList {
    /// The number of records the log was made to hold.
    pub closed spec fn spec_capacity(&self) -> nat {
        self.capacity as nat
    }

    /// The log holds no more than its capacity, and its own count of pushes
    /// agrees with that of the buffer.
    pub closed spec fn wf(&self) -> bool {
        &&& 0 < self.capacity <= MAX_CAPACITY
        &&& ring_capacity(self.ring) == self.capacity
        &&& ring_records(self.ring).len() <= self.capacity
        &&& ring_writes(self.ring) == self.writes
    }

    /// A well-formed log holds no more than its capacity, which is above zero.
    pub proof fn lemma_bounded(&self)
        requires
            self.wf(),
        ensures
            self@.len() <= self.spec_capacity(),
            0 < self.spec_capacity() <= MAX_CAPACITY,
    {
    }

    /// An empty log that holds up to `capacity` records.
    pub fn new(capacity: usize) -> (list: CollisionList)
        requires
            0 < capacity <= MAX_CAPACITY,
        ensures
            list.wf(),
            list@ == Seq::<Collision>::empty(),
            list.spec_capacity() == capacity,
    {
        CollisionList { ring: ring_new(capacity), capacity, writes: 0 }
    }

    /// The number of records the log was made to hold.
    pub fn capacity(&self) -> (n: usize)
        ensures
            n == self.spec_capacity(),
    {
        self.capacity
    }

    /// Copies of the records, oldest first.
    pub fn to_vec(&self) -> (records: Vec<Collision>)
        ensures
            records@ == self@,
    {
        ring_to_vec(&self.ring)
    }

    /// The number of records held.
    pub fn len(&self) -> (n: usize)
        ensures
            n == self@.len(),
    {
        ring_len(&self.ring)
    }

    /// Moves the records into a fresh buffer, so that the count of pushes
    /// starts again from the number of records held.
    fn renew(&mut self)
        requires
            old(self).wf(),
        ensures
            final(self).wf(),
            final(self)@ == old(self)@,
            final(self).spec_capacity() == old(self).spec_capacity(),
            final(self).writes <= MAX_CAPACITY,
    {
        let records = ring_to_vec(&self.ring);
        let mut fresh = ring_new(self.capacity);
        let mut i: usize = 0;
        while i < records.len()
            invariant
                0 <= i <= records.len() <= self.capacity <= MAX_CAPACITY,
                ring_capacity(fresh) == self.capacity,
                ring_writes(fresh) == i,
                ring_records(fresh) == records@.take(i as int),
            decreases records.len() - i,
        {
            ring_push(&mut fresh, records[i]);
            assert(records@.take(i + 1) =~= records@.take(i as int).push(records@[i as int]));
            i += 1;
        }
        assert(records@.take(i as int) =~= records@);
        self.ring = fresh;
        self.writes = i;
    }

    /// Appends `item` as the newest record. Where the log is full, the oldest
    /// record is dropped.
    pub fn push(&mut self, item: Collision)
        requires
            old(self).wf(),
        ensures
            final(self).wf(),
            final(self)@ == spec_push(old(self)@, old(self).spec_capacity(), item),
            final(self).spec_capacity() == old(self).spec_capacity(),
            final(self)@.last() == item,
            final(self)@.len() == if old(self)@.len() < old(self).spec_capacity() {
                old(self)@.len() + 1
            } else {
                old(self)@.len()
            },
    {
        if self.writes == usize::MAX {
            self.renew();
        }
        ring_push(&mut self.ring, item);
        self.writes = self.writes + 1;
    }

    /// Advances the angle of every record by `delta_angle`.
    pub fn advance(&mut self, delta_angle: Fixed)
        requires
            old(self).wf(),
        ensures
            final(self).wf(),
            final(self)@ == spec_advanced(old(self)@, delta_angle),
            final(self).spec_capacity() == old(self).spec_capacity(),
    {
        ring_advance(&mut self.ring, delta_angle);
    }
}

} // verus!
