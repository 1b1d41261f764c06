use vstd::prelude::*;

use crate::con_::{BulkConsumer, Consumer};
use crate::Never;

verus! {

/// Collects data and can at any point be converted into a `Vec<T>`. It
/// never fails; bulk writes accept everything they are offered, while the
/// advertised window is a single cell at a time.
pub struct IntoVec<T> {
    items: Vec<T>,
}

impl<T: Copy> IntoVec<T> {
    /// Creates a new, empty `IntoVec`.
    pub fn new() -> (r: Self)
        ensures
            r.wf(),
            r.consumed() == Seq::<T>::empty(),
    {
        IntoVec { items: Vec::new() }
    }

    /// Hands out the collected items.
    pub fn into_vec(self) -> (r: Vec<T>)
        ensures
            r@ == self.consumed(),
    {
        self.items
    }

    pub fn into_inner(self) -> (r: Vec<T>)
        ensures
            r@ == self.consumed(),
    {
        self.items
    }

    pub fn as_ref(&self) -> (r: &Vec<T>)
        ensures
            r@ == self.consumed(),
    {
        &self.items
    }

    pub fn as_mut(&mut self) -> (r: &mut Vec<T>)
        ensures
            r@ == old(self).consumed(),
            final(self).consumed() == final(r)@,
    {
        &mut self.items
    }
}

impl<T: Copy> Consumer<T, Never> for IntoVec<T> {
    closed spec fn wf(&self) -> bool {
        true
    }

    closed spec fn consumed(&self) -> Seq<T> {
        self.items@
    }

    closed spec fn flushed(&self) -> bool {
        true
    }

    fn consume(&mut self, item: T) -> (r: Result<(), Never>)
        ensures
            r is Ok,
    {
        self.items.push(item);
        Ok(())
    }

    fn flush(&mut self) -> (r: Result<(), Never>)
        ensures
            r is Ok,
    {
        Ok(())
    }
}

impl<T: Copy> BulkConsumer<T, Never> for IntoVec<T> {
    closed spec fn space(&self) -> nat {
        1
    }

    fn consumer_slots(&mut self) -> (r: Result<usize, Never>)
        ensures
            r is Ok,
    {
        Ok(1)
    }

    fn bulk_consume(&mut self, data: &[T]) -> (r: Result<usize, Never>)
        ensures
            r matches Ok(n) && n == data@.len(),
    {
        let ghost prev = *self;
        let mut j: usize = 0;
        proof {
            assert(self.items@ =~= prev.items@ + data@.take(0));
        }
        while j < data.len()
            invariant
                j <= data@.len(),
                self.items@ == prev.items@ + data@.take(j as int),
            decreases data@.len() - j,
        {
            self.items.push(data[j]);
            proof {
                assert(self.items@ =~= prev.items@ + data@.take(j + 1));
            }
            j = j + 1;
        }
        proof {
            assert(data@.take(data@.len() as int) =~= data@);
        }
        Ok(data.len())
    }
}

} // verus!
