use vstd::prelude::*;

use crate::con_::{BulkConsumer, Consumer};
use crate::pro::{BulkProducer, Producer};
use crate::ringbuffer::FixedBuffer;

verus! {

/// A buffer holding up to a certain, statically determined number of items.
/// Writes fail with the transient unavailability error `()` when the buffer
/// is full, reads fail with it when the buffer is empty.
pub struct StaticBuffer<T, const N: usize> {
    buf: FixedBuffer<T>,
}

impl<T: Copy, const N: usize> StaticBuffer<T, N> {
    /// Validity of the buffer's state.
    pub closed spec fn inv(&self) -> bool {
        self.buf.inv() && self.buf.cap() == N
    }

    /// The items currently held, oldest first.
    pub closed spec fn contents(&self) -> Seq<T> {
        self.buf.contents()
    }

    pub fn new() -> (r: Self)
        ensures
            r.inv(),
            r.contents() == Seq::<T>::empty(),
            r.consumed() == Seq::<T>::empty(),
            r.produced() == Seq::<T>::empty(),
    {
        StaticBuffer { buf: FixedBuffer::new(N) }
    }

    /// Builds an empty buffer whose capacity is taken from the given backing
    /// array; the array's values are irrelevant since the buffer starts
    /// empty.
    pub fn from_array(storage: [T; N]) -> (r: Self)
        ensures
            r.inv(),
            r.contents() == Seq::<T>::empty(),
            r.consumed() == Seq::<T>::empty(),
            r.produced() == Seq::<T>::empty(),
    {
        let _ = storage;
        StaticBuffer { buf: FixedBuffer::new(N) }
    }

    /// Items enter on the write side and leave on the read side in the same
    /// order, without loss or duplication: everything ever written is
    /// exactly everything read back out, followed by the current contents.
    pub proof fn lemma_fifo(&self)
        requires
            self.inv(),
        ensures
            self.consumed() == self.produced() + self.contents(),
            self.produced().is_prefix_of(self.consumed()),
    {
        self.buf.lemma_facts();
        assert(self.produced() =~= self.consumed().take(self.produced().len() as int));
    }

    /// Round trip: while nothing has been read yet, the buffer holds
    /// exactly what was written, whatever mixture of single and bulk writes
    /// put it there.
    pub proof fn lemma_round_trip(&self)
        requires
            self.inv(),
            self.produced() == Seq::<T>::empty(),
        ensures
            self.contents() == self.consumed(),
    {
        self.buf.lemma_facts();
        assert(self.contents() =~= self.consumed());
    }
}

impl<T: Copy, const N: usize> Consumer<T, ()> for StaticBuffer<T, N> {
    open spec fn wf(&self) -> bool {
        self.inv()
    }

    closed spec fn consumed(&self) -> Seq<T> {
        self.buf.consumed()
    }

    closed spec fn flushed(&self) -> bool {
        true
    }

    fn consume(&mut self, item: T) -> (r: Result<(), ()>)
        ensures
            r is Err <==> old(self).contents().len() == N,
            r is Ok ==> final(self).contents() == old(self).contents().push(item),
            r is Err ==> final(self).contents() == old(self).contents(),
    {
        proof {
            self.buf.lemma_facts();
        }
        if self.buf.get_amount() == self.buf.get_capacity() {
            return Err(());
        }
        self.buf.consume(item);
        Ok(())
    }

    fn flush(&mut self) -> (r: Result<(), ()>)
        ensures
            r is Ok,
            *final(self) == *old(self),
    {
        Ok(())
    }
}

impl<T: Copy, const N: usize> BulkConsumer<T, ()> for StaticBuffer<T, N> {
    closed spec fn space(&self) -> nat {
        self.buf.free_len()
    }

    fn consumer_slots(&mut self) -> (r: Result<usize, ()>)
        ensures
            r is Err <==> old(self).contents().len() == N,
            *final(self) == *old(self),
    {
        proof {
            self.buf.lemma_facts();
        }
        if self.buf.get_amount() == self.buf.get_capacity() {
            return Err(());
        }
        Ok(self.buf.free_run_len())
    }

    fn bulk_consume(&mut self, data: &[T]) -> (r: Result<usize, ()>)
        ensures
            r is Err <==> old(self).contents().len() == N,
            r matches Ok(n) ==> final(self).contents() == old(self).contents() + data@.take(
                n as int,
            ) && (if data@.len() <= old(self).space() {
                n == data@.len()
            } else {
                n as nat == old(self).space()
            }),
            r is Err ==> final(self).contents() == old(self).contents(),
    {
        proof {
            self.buf.lemma_facts();
        }
        if self.buf.get_amount() == self.buf.get_capacity() {
            return Err(());
        }
        let free = self.buf.free_run_len();
        let n = if free < data.len() {
            free
        } else {
            data.len()
        };
        self.buf.push_prefix(data, n);
        Ok(n)
    }
}

impl<T: Copy, const N: usize> Producer<T, ()> for StaticBuffer<T, N> {
    open spec fn wf(&self) -> bool {
        self.inv()
    }

    closed spec fn produced(&self) -> Seq<T> {
        self.buf.produced()
    }

    fn produce(&mut self) -> (r: Result<T, ()>)
        ensures
            r is Err <==> old(self).contents().len() == 0,
            r matches Ok(item) ==> item == old(self).contents()[0] && final(self).contents()
                == old(self).contents().skip(1),
            r is Err ==> final(self).contents() == old(self).contents(),
    {
        if self.buf.get_amount() == 0 {
            return Err(());
        }
        Ok(self.buf.produce())
    }

    fn slurp(&mut self) -> (r: Result<(), ()>)
        ensures
            r is Ok,
            *final(self) == *old(self),
    {
        Ok(())
    }
}

impl<T: Copy, const N: usize> BulkProducer<T, ()> for StaticBuffer<T, N> {
    closed spec fn slots(&self) -> Seq<T> {
        self.buf.front_run()
    }

    fn producer_slots(&mut self) -> (r: Result<Vec<T>, ()>)
        ensures
            r is Err <==> old(self).contents().len() == 0,
            *final(self) == *old(self),
            r matches Ok(v) ==> v@ == old(self).contents().take(v@.len() as int),
    {
        proof {
            self.buf.lemma_facts();
        }
        if self.buf.get_amount() == 0 {
            return Err(());
        }
        Ok(self.buf.front_run_vec())
    }

    fn did_produce(&mut self, amount: usize)
        ensures
            final(self).contents() == old(self).contents().skip(amount as int),
            final(self).produced() == old(self).produced() + old(self).contents().take(
                amount as int,
            ),
    {
        proof {
            self.buf.lemma_facts();
            assert(old(self).buf.front_run().take(amount as int) =~= old(
                self,
            ).buf.contents().take(amount as int));
        }
        self.buf.advance_read(amount);
    }

    fn bulk_produce(&mut self, buffer_len: usize) -> (r: Result<Vec<T>, ()>)
        ensures
            r is Err <==> old(self).contents().len() == 0,
            r matches Ok(v) ==> v@ == old(self).contents().take(v@.len() as int) && final(self).contents() == old(self).contents().skip(v@.len() as int),
            r matches Ok(v) ==> v@.len() == (if old(self).slots().len() <= buffer_len {
                old(self).slots().len()
            } else {
                buffer_len as nat
            }),
            r is Err ==> final(self).contents() == old(self).contents(),
    {
        proof {
            self.buf.lemma_facts();
        }
        if self.buf.get_amount() == 0 {
            return Err(());
        }
        let mut v = self.buf.front_run_vec();
        if v.len() > buffer_len {
            v.truncate(buffer_len);
        }
        proof {
            assert(v@ =~= self.buf.contents().take(v@.len() as int));
        }
        let n = v.len();
        self.buf.advance_read(n);
        Ok(v)
    }
}

} // verus!
