use vstd::prelude::*;

use crate::pro::{BulkProducer, Producer};

verus! {

/// Creates a producer which produces the data in the given vector.
pub fn cursor<T: Copy>(s: Vec<T>) -> (r: Cursor<T>)
    ensures
        r.wf(),
        r.produced() == Seq::<T>::empty(),
        r.remaining() == s@,
{
    proof {
        vstd::std_specs::vec::axiom_spec_len(&s);
    }
    Cursor { items: s, pos: 0 }
}

/// Produces data from a vector, front to back; reaching the end is reported
/// as the error `()`.
pub struct Cursor<T> {
    items: Vec<T>,
    pos: usize,
}

impl<T: Copy> Cursor<T> {
    /// The items not yet produced.
    pub closed spec fn remaining(&self) -> Seq<T> {
        self.items@.skip(self.pos as int)
    }

    pub fn into_inner(self) -> (r: Vec<T>)
        requires
            self.wf(),
        ensures
            r@ == self.produced() + self.remaining(),
    {
        proof {
            assert(self.items@ =~= self.produced() + self.remaining());
        }
        self.items
    }

    pub fn as_ref(&self) -> (r: &Vec<T>)
        requires
            self.wf(),
        ensures
            r@ == self.produced() + self.remaining(),
    {
        proof {
            assert(self.items@ =~= self.produced() + self.remaining());
        }
        &self.items
    }
}

impl<T: Copy> Producer<T, ()> for Cursor<T> {
    closed spec fn wf(&self) -> bool {
        self.pos <= self.items@.len() <= usize::MAX
    }

    closed spec fn produced(&self) -> Seq<T> {
        self.items@.take(self.pos as int)
    }

    fn produce(&mut self) -> (r: Result<T, ()>)
        ensures
            r is Err <==> old(self).remaining().len() == 0,
            r matches Ok(item) ==> item == old(self).remaining()[0],
            final(self).remaining() == if old(self).remaining().len() == 0 {
                old(self).remaining()
            } else {
                old(self).remaining().skip(1)
            },
    {
        if self.pos == self.items.len() {
            return Err(());
        }
        let item = self.items[self.pos];
        self.pos = self.pos + 1;
        proof {
            assert(final(self).produced() =~= old(self).produced().push(item));
            assert(final(self).remaining() =~= old(self).remaining().skip(1));
        }
        Ok(item)
    }

    fn slurp(&mut self) -> (r: Result<(), ()>)
        ensures
            r is Ok,
    {
        Ok(())
    }
}

impl<T: Copy> BulkProducer<T, ()> for Cursor<T> {
    closed spec fn slots(&self) -> Seq<T> {
        self.items@.skip(self.pos as int)
    }

    fn producer_slots(&mut self) -> (r: Result<Vec<T>, ()>)
        ensures
            r is Err <==> old(self).remaining().len() == 0,
            *final(self) == *old(self),
            r matches Ok(v) ==> v@ == old(self).remaining(),
    {
        if self.pos == self.items.len() {
            return Err(());
        }
        let mut v: Vec<T> = Vec::new();
        let mut j: usize = self.pos;
        while j < self.items.len()
            invariant
                self.pos <= j <= self.items@.len(),
                v@ == self.items@.subrange(self.pos as int, j as int),
            decreases self.items@.len() - j,
        {
            v.push(self.items[j]);
            proof {
                assert(v@ =~= self.items@.subrange(self.pos as int, j + 1));
            }
            j = j + 1;
        }
        proof {
            assert(v@ =~= self.slots());
        }
        Ok(v)
    }

    fn did_produce(&mut self, amount: usize)
        ensures
            final(self).remaining() == old(self).remaining().skip(amount as int),
    {
        self.pos = self.pos + amount;
        proof {
            assert(final(self).produced() =~= old(self).produced() + old(self).slots().take(
                amount as int,
            ));
        }
    }

    fn bulk_produce(&mut self, buffer_len: usize) -> (r: Result<Vec<T>, ()>)
        ensures
            r is Err <==> old(self).remaining().len() == 0,
            r matches Ok(v) ==> v@ == old(self).remaining().take(v@.len() as int) && final(self).remaining() == old(self).remaining().skip(v@.len() as int) && v@.len() == (if old(self).remaining().len() <= buffer_len {
                old(self).remaining().len()
            } else {
                buffer_len as nat
            }),
    {
        if self.pos == self.items.len() {
            return Err(());
        }
        let avail = self.items.len() - self.pos;
        let n = if avail < buffer_len {
            avail
        } else {
            buffer_len
        };
        let mut v: Vec<T> = Vec::new();
        let mut j: usize = 0;
        while j < n
            invariant
                self.pos + n <= self.items@.len(),
                self.items@.len() <= usize::MAX,
                j <= n,
                v@ == self.items@.subrange(self.pos as int, self.pos + j),
            decreases n - j,
        {
            v.push(self.items[self.pos + j]);
            proof {
                assert(v@ =~= self.items@.subrange(self.pos as int, self.pos + j + 1));
            }
            j = j + 1;
        }
        self.pos = self.pos + n;
        proof {
            assert(final(self).produced() =~= old(self).produced() + v@);
        }
        Ok(v)
    }
}

} // verus!
