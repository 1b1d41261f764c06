use vstd::prelude::*;

use crate::con_::{BulkConsumer, Consumer};
use crate::pro::{BulkProducer, Producer};
use crate::Never;

verus! {

/// A consumer that swallows data without doing anything with it; it never
/// fails. The ghost record of what was swallowed is all that remains.
pub struct TrivialWritable<T> {
    swallowed: Ghost<Seq<T>>,
}

impl<T: Copy> TrivialWritable<T> {
    /// Creates a new `TrivialWritable`.
    pub fn new() -> (r: Self)
        ensures
            r.wf(),
            r.consumed() == Seq::<T>::empty(),
    {
        TrivialWritable { swallowed: Ghost(Seq::empty()) }
    }
}

impl<T: Copy> Consumer<T, Never> for TrivialWritable<T> {
    closed spec fn wf(&self) -> bool {
        true
    }

    closed spec fn consumed(&self) -> Seq<T> {
        self.swallowed@
    }

    closed spec fn flushed(&self) -> bool {
        true
    }

    fn consume(&mut self, item: T) -> (r: Result<(), Never>)
        ensures
            r is Ok,
    {
        self.swallowed = Ghost(self.swallowed@.push(item));
        Ok(())
    }

    fn flush(&mut self) -> (r: Result<(), Never>)
        ensures
            r is Ok,
    {
        Ok(())
    }
}

impl<T: Copy> BulkConsumer<T, Never> for TrivialWritable<T> {
    closed spec fn space(&self) -> nat {
        1
    }

    fn consumer_slots(&mut self) -> (r: Result<usize, Never>)
        ensures
            r is Ok,
    {
        Ok(1)
    }

    fn bulk_consume(&mut self, data: &[T]) -> (r: Result<usize, Never>)
        ensures
            r matches Ok(n) && n == data@.len(),
    {
        self.swallowed = Ghost(self.swallowed@ + data@);
        proof {
            assert(data@.take(data@.len() as int) =~= data@);
        }
        Ok(data.len())
    }
}

/// A producer that repeats one item forever; it never fails.
pub struct TrivialReadable<T> {
    item: T,
    // everything emitted so far
    emitted: Ghost<Seq<T>>,
}

impl<T: Copy> TrivialReadable<T> {
    /// Creates a new `TrivialReadable`.
    pub fn new(item: T) -> (r: Self)
        ensures
            r.wf(),
            r.produced() == Seq::<T>::empty(),
            r.slots() == seq![item],
    {
        TrivialReadable { item, emitted: Ghost(Seq::empty()) }
    }
}

impl<T: Copy> Producer<T, Never> for TrivialReadable<T> {
    closed spec fn wf(&self) -> bool {
        true
    }

    closed spec fn produced(&self) -> Seq<T> {
        self.emitted@
    }

    fn produce(&mut self) -> (r: Result<T, Never>)
        ensures
            r matches Ok(item) && item == old(self).slots()[0],
    {
        self.emitted = Ghost(self.emitted@.push(self.item));
        Ok(self.item)
    }

    fn slurp(&mut self) -> (r: Result<(), Never>)
        ensures
            r is Ok,
    {
        Ok(())
    }
}

impl<T: Copy> BulkProducer<T, Never> for TrivialReadable<T> {
    closed spec fn slots(&self) -> Seq<T> {
        seq![self.item]
    }

    fn producer_slots(&mut self) -> (r: Result<Vec<T>, Never>)
        ensures
            r is Ok,
    {
        let mut v: Vec<T> = Vec::new();
        v.push(self.item);
        proof {
            assert(v@ =~= self.slots());
        }
        Ok(v)
    }

    fn did_produce(&mut self, amount: usize) {
        self.emitted = Ghost(self.emitted@.push(self.item));
        proof {
            assert(old(self).slots().take(amount as int) =~= seq![old(self).item]);
            assert(final(self).produced() =~= old(self).produced() + old(self).slots().take(
                amount as int,
            ));
        }
    }

    /// Fills the whole requested buffer with copies of the item.
    fn bulk_produce(&mut self, buffer_len: usize) -> (r: Result<Vec<T>, Never>)
        ensures
            r is Ok,
            r matches Ok(v) ==> v@.len() == buffer_len && forall|i: int|
                0 <= i < v@.len() ==> v@[i] == old(self).slots()[0],
    {
        let ghost prev = *self;
        let mut v: Vec<T> = Vec::new();
        let mut j: usize = 0;
        while j < buffer_len
            invariant
                *self == prev,
                j <= buffer_len,
                v@.len() == j,
                forall|i: int| 0 <= i < v@.len() ==> v@[i] == self.item,
            decreases buffer_len - j,
        {
            v.push(self.item);
            j = j + 1;
        }
        self.emitted = Ghost(self.emitted@ + v@);
        Ok(v)
    }
}

} // verus!
