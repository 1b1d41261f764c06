use vstd::prelude::*;

use crate::pro::{BulkProducer, Producer};
use crate::Never;

verus! {

/// A producer that repeatedly outputs the same data, cycling through the
/// given items forever; it never fails.
pub struct Repeat<T> {
    items: Vec<T>,
    index: usize,
    // everything emitted so far
    emitted: Ghost<Seq<T>>,
}

impl<T: Copy> Repeat<T> {
    /// The data being cycled through.
    pub closed spec fn cycle(&self) -> Seq<T> {
        self.items@
    }

    /// Creates a new `Repeat`, endlessly cycling through the given
    /// non-empty data.
    pub fn new(data: Vec<T>) -> (r: Self)
        requires
            data@.len() >= 1,
        ensures
            r.wf(),
            r.produced() == Seq::<T>::empty(),
            r.slots() == data@,
            r.cycle() == data@,
    {
        let r = Repeat { items: data, index: 0, emitted: Ghost(Seq::empty()) };
        proof {
            vstd::std_specs::vec::axiom_spec_len(&r.items);
            assert(r.slots() =~= r.items@);
        }
        r
    }
}

impl<T: Copy> Producer<T, Never> for Repeat<T> {
    closed spec fn wf(&self) -> bool {
        &&& 1 <= self.items@.len() <= usize::MAX
        &&& self.index < self.items@.len()
    }

    closed spec fn produced(&self) -> Seq<T> {
        self.emitted@
    }

    fn produce(&mut self) -> (r: Result<T, Never>)
        ensures
            r matches Ok(item) && item == old(self).slots()[0],
            final(self).cycle() == old(self).cycle(),
            final(self).slots() == (if old(self).slots().len() == 1 {
                old(self).cycle()
            } else {
                old(self).slots().skip(1)
            }),
    {
        let item = self.items[self.index];
        self.index = if self.index + 1 == self.items.len() {
            0
        } else {
            self.index + 1
        };
        self.emitted = Ghost(self.emitted@.push(item));
        proof {
            if old(self).index + 1 == old(self).items@.len() {
                assert(final(self).slots() =~= old(self).cycle());
            } else {
                assert(final(self).slots() =~= old(self).slots().skip(1));
            }
        }
        Ok(item)
    }

    fn slurp(&mut self) -> (r: Result<(), Never>)
        ensures
            r is Ok,
    {
        Ok(())
    }
}

impl<T: Copy> BulkProducer<T, Never> for Repeat<T> {
    closed spec fn slots(&self) -> Seq<T> {
        self.items@.skip(self.index as int)
    }

    fn producer_slots(&mut self) -> (r: Result<Vec<T>, Never>)
        ensures
            r is Ok,
    {
        let mut v: Vec<T> = Vec::new();
        let mut j: usize = self.index;
        while j < self.items.len()
            invariant
                self.wf(),
                self.index <= j <= self.items@.len(),
                v@ == self.items@.subrange(self.index as int, j as int),
            decreases self.items@.len() - j,
        {
            v.push(self.items[j]);
            proof {
                assert(v@ =~= self.items@.subrange(self.index as int, j + 1));
            }
            j = j + 1;
        }
        proof {
            assert(v@ =~= self.slots());
        }
        Ok(v)
    }

    fn did_produce(&mut self, amount: usize)
        ensures
            final(self).cycle() == old(self).cycle(),
            final(self).slots() == (if amount == old(self).slots().len() {
                old(self).cycle()
            } else {
                old(self).slots().skip(amount as int)
            }),
    {
        self.index = if self.index + amount == self.items.len() {
            0
        } else {
            self.index + amount
        };
        self.emitted = Ghost(self.emitted@ + old(self).slots().take(amount as int));
        proof {
            if old(self).index + amount == old(self).items@.len() {
                assert(final(self).slots() =~= old(self).cycle());
            } else {
                assert(final(self).slots() =~= old(self).slots().skip(amount as int));
            }
        }
    }

    fn bulk_produce(&mut self, buffer_len: usize) -> (r: Result<Vec<T>, Never>)
        ensures
            r is Ok,
            final(self).cycle() == old(self).cycle(),
            r matches Ok(v) ==> {
                &&& v@ == old(self).slots().take(v@.len() as int)
                &&& v@.len() == (if old(self).slots().len() <= buffer_len {
                    old(self).slots().len()
                } else {
                    buffer_len as nat
                })
                &&& final(self).slots() == (if v@.len() == old(self).slots().len() {
                    old(self).cycle()
                } else {
                    old(self).slots().skip(v@.len() as int)
                })
            },
    {
        let avail = self.items.len() - self.index;
        let n = if avail < buffer_len {
            avail
        } else {
            buffer_len
        };
        let mut v: Vec<T> = Vec::new();
        let mut j: usize = 0;
        while j < n
            invariant
                self.wf(),
                self.index + n <= self.items@.len(),
                j <= n,
                v@ == self.items@.subrange(self.index as int, self.index + j),
            decreases n - j,
        {
            v.push(self.items[self.index + j]);
            proof {
                assert(v@ =~= self.items@.subrange(self.index as int, self.index + j + 1));
            }
            j = j + 1;
        }
        self.index = if self.index + n == self.items.len() {
            0
        } else {
            self.index + n
        };
        self.emitted = Ghost(self.emitted@ + v@);
        proof {
            assert(v@ =~= old(self).slots().take(n as int));
            if old(self).index + n == old(self).items@.len() {
                assert(final(self).slots() =~= old(self).cycle());
            } else {
                assert(final(self).slots() =~= old(self).slots().skip(n as int));
            }
        }
        Ok(v)
    }
}

} // verus!
