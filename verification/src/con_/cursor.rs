use vstd::prelude::*;

use crate::con_::{BulkConsumer, Consumer};

verus! {

/// Creates a consumer which places consumed data in the given vector,
/// overwriting it from the front.
pub fn cursor<T: Copy>(s: Vec<T>) -> (r: Cursor<T>)
    ensures
        r.wf(),
        r.consumed() == Seq::<T>::empty(),
        r.space() == s@.len(),
        r.storage() == s@,
{
    Cursor { dest: s, pos: 0 }
}

/// Consumes data into a vector, overwriting it front to back; running out
/// of room is reported as the error `()`.
pub struct Cursor<T> {
    dest: Vec<T>,
    pos: usize,
}

impl<T: Copy> Cursor<T> {
    /// The backing storage: the consumed items followed by the cells not
    /// yet overwritten.
    pub closed spec fn storage(&self) -> Seq<T> {
        self.dest@
    }

    pub fn into_inner(self) -> (r: Vec<T>)
        ensures
            r@ == self.storage(),
    {
        self.dest
    }

    pub fn as_ref(&self) -> (r: &Vec<T>)
        ensures
            r@ == self.storage(),
    {
        &self.dest
    }

    pub fn as_mut(&mut self) -> (r: &mut Vec<T>)
        ensures
            r@ == old(self).storage(),
            final(self).storage() == final(r)@,
    {
        &mut self.dest
    }

    /// The consumed items sit at the front of the backing storage.
    pub proof fn lemma_consumed_prefix(&self)
        requires
            self.wf(),
        ensures
            self.consumed() == self.storage().take(self.consumed().len() as int),
            self.consumed().len() + self.space() == self.storage().len(),
    {
    }
}

impl<T: Copy> Consumer<T, ()> for Cursor<T> {
    closed spec fn wf(&self) -> bool {
        self.pos <= self.dest@.len()
    }

    closed spec fn consumed(&self) -> Seq<T> {
        self.dest@.take(self.pos as int)
    }

    closed spec fn flushed(&self) -> bool {
        true
    }

    fn consume(&mut self, item: T) -> (r: Result<(), ()>)
        ensures
            r is Err <==> old(self).space() == 0,
            r is Ok ==> final(self).storage() == old(self).storage().update(
                old(self).consumed().len() as int,
                item,
            ),
            r is Err ==> *final(self) == *old(self),
    {
        if self.pos == self.dest.len() {
            return Err(());
        }
        self.dest[self.pos] = item;
        self.pos = self.pos + 1;
        proof {
            assert(final(self).consumed() =~= old(self).consumed().push(item));
            assert(final(self).storage() =~= old(self).storage().update(
                old(self).consumed().len() as int,
                item,
            ));
        }
        Ok(())
    }

    fn flush(&mut self) -> (r: Result<(), ()>)
        ensures
            r is Ok,
    {
        Ok(())
    }
}

impl<T: Copy> BulkConsumer<T, ()> for Cursor<T> {
    closed spec fn space(&self) -> nat {
        (self.dest@.len() - self.pos) as nat
    }

    fn consumer_slots(&mut self) -> (r: Result<usize, ()>)
        ensures
            r is Err <==> old(self).space() == 0,
            *final(self) == *old(self),
    {
        if self.pos == self.dest.len() {
            return Err(());
        }
        Ok(self.dest.len() - self.pos)
    }

    fn bulk_consume(&mut self, data: &[T]) -> (r: Result<usize, ()>)
        ensures
            r is Err <==> old(self).space() == 0,
            r matches Ok(n) ==> (if data@.len() <= old(self).space() {
                n == data@.len()
            } else {
                n as nat == old(self).space()
            }),
            r matches Ok(n) ==> final(self).storage() == old(self).storage().take(
                old(self).consumed().len() as int,
            ) + data@.take(n as int) + old(self).storage().skip(
                old(self).consumed().len() + n,
            ),
            r is Err ==> *final(self) == *old(self),
    {
        if self.pos == self.dest.len() {
            return Err(());
        }
        let room = self.dest.len() - self.pos;
        let n = if room < data.len() {
            room
        } else {
            data.len()
        };
        let ghost prev = *self;
        let mut j: usize = 0;
        proof {
            assert(self.dest@ =~= prev.dest@.take(prev.pos as int) + data@.take(0)
                + prev.dest@.skip(prev.pos as int));
        }
        while j < n
            invariant
                j <= n,
                n <= data@.len(),
                prev.pos + n <= prev.dest@.len(),
                prev.dest@.len() <= usize::MAX,
                self.pos == prev.pos,
                self.dest@.len() == prev.dest@.len(),
                self.dest@ == prev.dest@.take(prev.pos as int) + data@.take(j as int)
                    + prev.dest@.skip(prev.pos + j),
            decreases n - j,
        {
            self.dest[self.pos + j] = data[j];
            proof {
                assert(self.dest@ =~= prev.dest@.take(prev.pos as int) + data@.take(j + 1)
                    + prev.dest@.skip(prev.pos + j + 1));
            }
            j = j + 1;
        }
        self.pos = self.pos + n;
        proof {
            assert(final(self).consumed() =~= old(self).consumed() + data@.take(n as int));
            assert(final(self).storage() =~= old(self).storage().take(
                old(self).consumed().len() as int,
            ) + data@.take(n as int) + old(self).storage().skip(old(self).consumed().len() + n));
        }
        Ok(n)
    }
}

} // verus!
