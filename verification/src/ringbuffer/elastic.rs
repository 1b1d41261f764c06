use vstd::prelude::*;

use crate::con_::{BulkConsumer, Consumer};
use crate::pro::{BulkProducer, Producer};
use crate::ringbuffer::FixedBuffer;

verus! {

/// Allocation size chosen when a full buffer of capacity `c` under the hard
/// cap `m` must grow: doubling bounded by the cap, with zero growing to one
/// first.
pub open spec fn grow_target(c: nat, m: nat) -> nat {
    if c == 0 {
        1
    } else if 2 * c >= m {
        m
    } else {
        2 * c
    }
}

/// Whether a buffer at occupancy `occ` whose last shrink happened at
/// occupancy `threshold` must shrink again.
pub open spec fn shrink_trigger(occ: nat, threshold: nat) -> bool {
    2 * occ < threshold
}

/// How a read of `amount` items resizes the buffer: it shrinks to the new
/// occupancy, and records it as the threshold, exactly when that occupancy
/// has fallen below half the current threshold.
pub open spec fn read_shrink_behavior<T: Copy>(
    pre: ElasticBuffer<T>,
    post: ElasticBuffer<T>,
    amount: nat,
) -> bool {
    if shrink_trigger((pre.occupancy() - amount) as nat, pre.threshold()) {
        post.allocated() == pre.occupancy() - amount && post.threshold() == pre.occupancy()
            - amount
    } else {
        post.allocated() == pre.allocated() && post.threshold() == pre.threshold()
    }
}

/// A buffer holding up to `max_size` items, elastically allocating and
/// deallocating the memory that backs it: a write to a full allocation
/// strictly below the cap doubles it (bounded by the cap), and a read that
/// leaves the occupancy below half the threshold recorded by the last
/// shrink resizes the allocation down to the occupancy.
pub struct ElasticBuffer<T> {
    buf: FixedBuffer<T>,
    max_size: usize,
    shrinking_threshold: usize,
}

impl<T: Copy> ElasticBuffer<T> {
    /// Validity of the buffer's state.
    pub closed spec fn inv(&self) -> bool {
        &&& self.buf.inv()
        &&& 1 <= self.max_size
        &&& self.buf.cap() <= self.max_size
        &&& self.shrinking_threshold <= self.max_size
    }

    /// The items currently held, oldest first.
    pub closed spec fn contents(&self) -> Seq<T> {
        self.buf.contents()
    }

    /// Number of items currently held.
    pub open spec fn occupancy(&self) -> nat {
        self.contents().len()
    }

    /// Currently allocated capacity.
    pub closed spec fn allocated(&self) -> nat {
        self.buf.cap()
    }

    /// The immutable ceiling on the allocated capacity.
    pub closed spec fn max_bound(&self) -> nat {
        self.max_size as nat
    }

    /// The occupancy recorded at the last shrink.
    pub closed spec fn threshold(&self) -> nat {
        self.shrinking_threshold as nat
    }

    pub fn new(max_size: usize) -> (r: Self)
        requires
            max_size >= 1,
        ensures
            r.inv(),
            r.max_bound() == max_size,
            r.allocated() == 0,
            r.threshold() == 0,
            r.consumed() == Seq::<T>::empty(),
            r.produced() == Seq::<T>::empty(),
            r.contents() == Seq::<T>::empty(),
    {
        ElasticBuffer { buf: FixedBuffer::new(0), max_size, shrinking_threshold: 0 }
    }

    pub fn with_capacity(max_size: usize, capacity: usize) -> (r: Self)
        requires
            max_size >= 1,
        ensures
            r.inv(),
            r.max_bound() == max_size,
            r.allocated() == if capacity <= max_size {
                capacity as nat
            } else {
                max_size as nat
            },
            r.threshold() == 0,
            r.consumed() == Seq::<T>::empty(),
            r.produced() == Seq::<T>::empty(),
            r.contents() == Seq::<T>::empty(),
    {
        let c = if capacity < max_size {
            capacity
        } else {
            max_size
        };
        ElasticBuffer { buf: FixedBuffer::new(c), max_size, shrinking_threshold: 0 }
    }

    /// Builds an empty buffer whose initial allocation is sized by the given
    /// backing storage; the storage's values are irrelevant since the buffer
    /// starts empty.
    pub fn from_vec(max_size: usize, storage: Vec<T>) -> (r: Self)
        requires
            max_size >= 1,
        ensures
            r.inv(),
            r.max_bound() == max_size,
            r.allocated() == if storage@.len() <= max_size {
                storage@.len()
            } else {
                max_size as nat
            },
            r.threshold() == 0,
            r.consumed() == Seq::<T>::empty(),
            r.produced() == Seq::<T>::empty(),
            r.contents() == Seq::<T>::empty(),
    {
        let c = if storage.len() < max_size {
            storage.len()
        } else {
            max_size
        };
        let _ = storage;
        ElasticBuffer { buf: FixedBuffer::new(c), max_size, shrinking_threshold: 0 }
    }

    /// Grows the allocation when the contents fill it completely, doubling
    /// bounded by the hard cap. Growth extends in place when the data does
    /// not wrap and linearizes it into fresh storage otherwise.
    fn grow_if_needed(&mut self)
        requires
            old(self).inv(),
            old(self).occupancy() < old(self).max_bound(),
        ensures
            final(self).inv(),
            final(self).occupancy() == old(self).occupancy(),
            final(self).occupancy() < final(self).allocated(),
            final(self).max_bound() == old(self).max_bound(),
            final(self).threshold() == old(self).threshold(),
            final(self).buf.consumed() == old(self).buf.consumed(),
            final(self).buf.produced() == old(self).buf.produced(),
            final(self).contents() == old(self).contents(),
            old(self).occupancy() < old(self).allocated() ==> *final(self) == *old(self),
            old(self).occupancy() == old(self).allocated() ==> final(self).allocated() == grow_target(
                old(self).allocated(),
                old(self).max_bound(),
            ) && final(self).buf.free_len() == final(self).allocated() - final(self).occupancy(),
    {
        proof {
            self.buf.lemma_facts();
        }
        let amt = self.buf.get_amount();
        let cap = self.buf.get_capacity();
        if amt == cap {
            let target = if cap == 0 {
                1
            } else if cap >= self.max_size - cap {
                self.max_size
            } else {
                2 * cap
            };
            if self.buf.is_data_contiguous() {
                self.buf.extend_cap(target);
            } else {
                self.buf.resize_linearize(target);
            }
        }
    }

    /// Shrinks the allocation down to the occupancy once the occupancy has
    /// fallen below half the threshold recorded by the last shrink, and
    /// records the new occupancy as the threshold.
    fn shrink_if_needed(&mut self)
        requires
            old(self).inv(),
        ensures
            final(self).inv(),
            final(self).occupancy() == old(self).occupancy(),
            final(self).max_bound() == old(self).max_bound(),
            final(self).buf.consumed() == old(self).buf.consumed(),
            final(self).buf.produced() == old(self).buf.produced(),
            final(self).contents() == old(self).contents(),
            shrink_trigger(old(self).occupancy(), old(self).threshold()) ==> final(self).allocated()
                == old(self).occupancy() && final(self).threshold() == old(self).occupancy(),
            !shrink_trigger(old(self).occupancy(), old(self).threshold()) ==> final(self).allocated()
                == old(self).allocated() && final(self).threshold() == old(self).threshold(),
    {
        proof {
            self.buf.lemma_facts();
        }
        let amt = self.buf.get_amount();
        let trig = if amt >= self.shrinking_threshold {
            false
        } else {
            self.shrinking_threshold - amt > amt
        };
        if trig {
            self.buf.resize_linearize(amt);
            self.shrinking_threshold = amt;
        }
    }

    /// Elastic bound: the occupancy never exceeds the allocated capacity,
    /// and the allocated capacity never exceeds the hard cap.
    pub proof fn lemma_elastic_bounds(&self)
        requires
            self.inv(),
        ensures
            self.occupancy() <= self.allocated() <= self.max_bound(),
    {
        self.buf.lemma_facts();
    }

    /// Items enter on the write side and leave on the read side in the same
    /// order, without loss or duplication: everything ever written is
    /// exactly everything read back out, followed by the current contents.
    pub proof fn lemma_fifo(&self)
        requires
            self.inv(),
        ensures
            self.consumed() == self.produced() + self.contents(),
            self.produced().is_prefix_of(self.consumed()),
    {
        self.buf.lemma_facts();
        assert(self.produced() =~= self.consumed().take(self.produced().len() as int));
    }

    /// Round trip: while nothing has been read yet, the buffer holds
    /// exactly what was written, whatever mixture of single and bulk writes
    /// put it there.
    pub proof fn lemma_round_trip(&self)
        requires
            self.inv(),
            self.produced() == Seq::<T>::empty(),
        ensures
            self.contents() == self.consumed(),
    {
        self.buf.lemma_facts();
        assert(self.contents() =~= self.consumed());
    }

    /// Hysteresis: a shrink records the occupancy it reached as the new
    /// threshold. From such a state a single read shrinks again only at
    /// occupancy one, and any later shrink needs the occupancy to fall below
    /// half the level of this one: alternating single writes and reads at a
    /// steady occupancy cannot shrink twice.
    pub proof fn lemma_shrink_hysteresis(&self)
        requires
            self.inv(),
            self.threshold() == self.occupancy(),
        ensures
            self.occupancy() >= 2 ==> !shrink_trigger(
                (self.occupancy() - 1) as nat,
                self.threshold(),
            ),
            forall|o: nat| shrink_trigger(o, self.threshold()) ==> 2 * o < self.occupancy(),
    {
    }
}

impl<T: Copy> Consumer<T, ()> for ElasticBuffer<T> {
    open spec fn wf(&self) -> bool {
        self.inv()
    }

    closed spec fn consumed(&self) -> Seq<T> {
        self.buf.consumed()
    }

    closed spec fn flushed(&self) -> bool {
        true
    }

    fn consume(&mut self, item: T) -> (r: Result<(), ()>)
        ensures
            final(self).max_bound() == old(self).max_bound(),
            r is Err <==> old(self).occupancy() == old(self).max_bound(),
            r is Ok ==> final(self).contents() == old(self).contents().push(item),
            r is Err ==> *final(self) == *old(self),
            r is Ok ==> final(self).threshold() == old(self).threshold() && final(self).allocated()
                == (if old(self).occupancy() < old(self).allocated() {
                old(self).allocated()
            } else {
                grow_target(old(self).allocated(), old(self).max_bound())
            }),
    {
        proof {
            self.buf.lemma_facts();
        }
        if self.buf.get_amount() >= self.max_size {
            return Err(());
        }
        self.grow_if_needed();
        self.buf.consume(item);
        Ok(())
    }

    fn flush(&mut self) -> (r: Result<(), ()>)
        ensures
            r is Ok,
            *final(self) == *old(self),
    {
        Ok(())
    }
}

impl<T: Copy> BulkConsumer<T, ()> for ElasticBuffer<T> {
    closed spec fn space(&self) -> nat {
        self.buf.free_len()
    }

    fn consumer_slots(&mut self) -> (r: Result<usize, ()>)
        ensures
            final(self).max_bound() == old(self).max_bound(),
            r is Err <==> old(self).occupancy() == old(self).max_bound(),
            final(self).contents() == old(self).contents(),
            final(self).threshold() == old(self).threshold(),
            r is Err ==> *final(self) == *old(self),
            r is Ok ==> final(self).allocated() == (if old(self).occupancy() < old(self).allocated() {
                old(self).allocated()
            } else {
                grow_target(old(self).allocated(), old(self).max_bound())
            }),
    {
        proof {
            self.buf.lemma_facts();
        }
        if self.buf.get_amount() >= self.max_size {
            return Err(());
        }
        self.grow_if_needed();
        proof {
            self.buf.lemma_facts();
        }
        Ok(self.buf.free_run_len())
    }

    fn bulk_consume(&mut self, data: &[T]) -> (r: Result<usize, ()>)
        ensures
            final(self).max_bound() == old(self).max_bound(),
            r is Err <==> old(self).occupancy() == old(self).max_bound(),
            r matches Ok(n) ==> final(self).contents() == old(self).contents() + data@.take(
                n as int,
            ),
            r is Err ==> *final(self) == *old(self),
            final(self).threshold() == old(self).threshold(),
            r is Ok ==> final(self).allocated() == (if old(self).occupancy() < old(self).allocated() {
                old(self).allocated()
            } else {
                grow_target(old(self).allocated(), old(self).max_bound())
            }),
            r matches Ok(n) ==> ({
                let w = if old(self).occupancy() < old(self).allocated() {
                    old(self).space() as int
                } else {
                    grow_target(old(self).allocated(), old(self).max_bound()) - old(self).occupancy()
                };
                n as int == (if data@.len() <= w {
                    data@.len() as int
                } else {
                    w
                })
            }),
    {
        proof {
            self.buf.lemma_facts();
        }
        if self.buf.get_amount() >= self.max_size {
            return Err(());
        }
        let ghost oldfree = self.buf.free_len();
        self.grow_if_needed();
        proof {
            self.buf.lemma_facts();
            if old(self).occupancy() == old(self).allocated() {
                assert(oldfree == 0);
            }
        }
        let free = self.buf.free_run_len();
        let n = if free < data.len() {
            free
        } else {
            data.len()
        };
        self.buf.push_prefix(data, n);
        Ok(n)
    }
}

impl<T: Copy> Producer<T, ()> for ElasticBuffer<T> {
    open spec fn wf(&self) -> bool {
        self.inv()
    }

    closed spec fn produced(&self) -> Seq<T> {
        self.buf.produced()
    }

    fn produce(&mut self) -> (r: Result<T, ()>)
        ensures
            final(self).max_bound() == old(self).max_bound(),
            r is Err <==> old(self).occupancy() == 0,
            r matches Ok(item) ==> item == old(self).contents()[0] && final(self).contents()
                == old(self).contents().skip(1),
            r is Err ==> *final(self) == *old(self),
            r is Ok ==> read_shrink_behavior(*old(self), *final(self), 1),
    {
        if self.buf.get_amount() == 0 {
            return Err(());
        }
        let item = self.buf.produce();
        self.shrink_if_needed();
        Ok(item)
    }

    fn slurp(&mut self) -> (r: Result<(), ()>)
        ensures
            r is Ok,
            *final(self) == *old(self),
    {
        Ok(())
    }
}

impl<T: Copy> BulkProducer<T, ()> for ElasticBuffer<T> {
    closed spec fn slots(&self) -> Seq<T> {
        self.buf.front_run()
    }

    fn producer_slots(&mut self) -> (r: Result<Vec<T>, ()>)
        ensures
            r is Err <==> old(self).occupancy() == 0,
            *final(self) == *old(self),
            r matches Ok(v) ==> v@ == old(self).contents().take(v@.len() as int),
    {
        proof {
            self.buf.lemma_facts();
        }
        if self.buf.get_amount() == 0 {
            return Err(());
        }
        Ok(self.buf.front_run_vec())
    }

    fn did_produce(&mut self, amount: usize)
        ensures
            final(self).max_bound() == old(self).max_bound(),
            final(self).contents() == old(self).contents().skip(amount as int),
            read_shrink_behavior(*old(self), *final(self), amount as nat),
    {
        proof {
            self.buf.lemma_facts();
            assert(old(self).buf.front_run().take(amount as int) =~= old(self).buf.contents().take(amount as int));
        }
        self.buf.advance_read(amount);
        self.shrink_if_needed();
    }

    fn bulk_produce(&mut self, buffer_len: usize) -> (r: Result<Vec<T>, ()>)
        ensures
            final(self).max_bound() == old(self).max_bound(),
            r is Err <==> old(self).occupancy() == 0,
            r matches Ok(v) ==> v@ == old(self).contents().take(v@.len() as int) && final(self).contents() == old(self).contents().skip(v@.len() as int),
            r matches Ok(v) ==> v@.len() == (if old(self).slots().len() <= buffer_len {
                old(self).slots().len()
            } else {
                buffer_len as nat
            }) && read_shrink_behavior(*old(self), *final(self), v@.len() as nat),
            r is Err ==> *final(self) == *old(self),
    {
        proof {
            self.buf.lemma_facts();
        }
        if self.buf.get_amount() == 0 {
            return Err(());
        }
        let mut v = self.buf.front_run_vec();
        if v.len() > buffer_len {
            v.truncate(buffer_len);
        }
        proof {
            assert(v@ =~= self.buf.contents().take(v@.len() as int));
        }
        let n = v.len();
        self.buf.advance_read(n);
        self.shrink_if_needed();
        Ok(v)
    }
}

} // verus!
