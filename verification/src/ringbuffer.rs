use vstd::prelude::*;

pub mod elastic;
pub mod static_;

verus! {

/// Shared circular-buffer core: a fixed allocation, a read cursor and an
/// occupancy count. Free cells hold `None`; the ghost history records every
/// item ever written, which ties together the write-facing view (everything
/// consumed), the read-facing view (everything produced back out) and the
/// current contents.
pub(crate) struct FixedBuffer<T> {
    data: Vec<Option<T>>,
    // reading resumes from this position
    read: usize,
    // amount of valid data
    amount: usize,
    // everything ever written, in order
    hist: Ghost<Seq<T>>,
}

impl<T: Copy> FixedBuffer<T> {
    pub(crate) closed spec fn cap(&self) -> nat {
        self.data@.len()
    }

    /// Index of the cell holding the `i`-th of the current contents.
    closed spec fn cell_index(&self, i: int) -> int {
        if self.read + i < self.cap() {
            self.read + i
        } else {
            self.read + i - self.cap()
        }
    }

    pub(crate) closed spec fn inv(&self) -> bool {
        &&& self.cap() <= usize::MAX
        &&& if self.cap() == 0 {
            self.read == 0
        } else {
            self.read < self.cap()
        }
        &&& self.amount <= self.cap()
        &&& self.amount <= self.hist@.len()
        &&& forall|i: int|
            0 <= i < self.amount ==> #[trigger] self.data@[self.cell_index(i)] == Some(
                self.hist@[self.hist@.len() - self.amount + i],
            )
    }

    /// Everything ever written into the buffer, in order.
    pub(crate) closed spec fn consumed(&self) -> Seq<T> {
        self.hist@
    }

    /// Everything ever read back out of the buffer, in order.
    pub(crate) closed spec fn produced(&self) -> Seq<T> {
        self.hist@.take(self.hist@.len() - self.amount)
    }

    /// The items currently held, oldest first.
    pub(crate) closed spec fn contents(&self) -> Seq<T> {
        self.hist@.skip(self.hist@.len() - self.amount)
    }

    closed spec fn front_len(&self) -> nat {
        if self.amount <= self.cap() - self.read {
            self.amount as nat
        } else {
            (self.cap() - self.read) as nat
        }
    }

    /// The first readable run: the contiguous prefix of the contents that
    /// can be exposed as a single window.
    pub(crate) closed spec fn front_run(&self) -> Seq<T> {
        self.contents().take(self.front_len() as int)
    }

    /// Length of the first writable run.
    pub(crate) closed spec fn free_len(&self) -> nat {
        if self.read + self.amount < self.cap() {
            (self.cap() - self.read - self.amount) as nat
        } else {
            (self.cap() - self.amount) as nat
        }
    }

    /// Facts that every well-formed buffer satisfies.
    pub(crate) proof fn lemma_facts(&self)
        requires
            self.inv(),
        ensures
            self.consumed() == self.produced() + self.contents(),
            self.contents().len() <= self.cap(),
            self.front_run().len() <= self.contents().len(),
            self.front_run() == self.contents().take(self.front_run().len() as int),
            self.contents().len() >= 1 ==> self.front_run().len() >= 1,
            self.contents().len() < self.cap() ==> self.free_len() >= 1,
            self.free_len() <= self.cap() - self.contents().len(),
    {
        assert(self.consumed() =~= self.produced() + self.contents());
    }

    pub(crate) fn new(capacity: usize) -> (r: Self)
        ensures
            r.inv(),
            r.cap() == capacity,
            r.consumed() == Seq::<T>::empty(),
            r.produced() == Seq::<T>::empty(),
            r.contents() == Seq::<T>::empty(),
    {
        let r = FixedBuffer { data: vec![None; capacity], read: 0, amount: 0, hist: Ghost(Seq::empty()) };
        proof {
            assert(r.consumed() =~= Seq::<T>::empty());
            assert(r.produced() =~= Seq::<T>::empty());
            assert(r.contents() =~= Seq::<T>::empty());
        }
        r
    }

    pub(crate) fn get_amount(&self) -> (r: usize)
        requires
            self.inv(),
        ensures
            r as nat == self.contents().len(),
    {
        self.amount
    }

    pub(crate) fn get_capacity(&self) -> (r: usize)
        requires
            self.inv(),
        ensures
            r as nat == self.cap(),
    {
        self.data.len()
    }

    /// Index of the cell right behind the current contents.
    fn write_index(&self) -> (w: usize)
        requires
            self.inv(),
            self.contents().len() < self.cap(),
        ensures
            w == self.cell_index(self.amount as int),
            w < self.cap(),
    {
        let cap = self.data.len();
        if self.amount < cap - self.read {
            self.read + self.amount
        } else {
            self.amount - (cap - self.read)
        }
    }

    pub(crate) fn consume(&mut self, item: T)
        requires
            old(self).inv(),
            old(self).contents().len() < old(self).cap(),
        ensures
            final(self).inv(),
            final(self).cap() == old(self).cap(),
            final(self).consumed() == old(self).consumed().push(item),
            final(self).contents() == old(self).contents().push(item),
            final(self).produced() == old(self).produced(),
    {
        let ghost prev = *self;
        let w = self.write_index();
        self.data[w] = Some(item);
        self.amount = self.amount + 1;
        self.hist = Ghost(self.hist@.push(item));
        proof {
            assert forall|i: int| 0 <= i < self.amount implies #[trigger] self.data@[self.cell_index(
                i,
            )] == Some(self.hist@[self.hist@.len() - self.amount + i]) by {
                if i < prev.amount {
                    assert(self.cell_index(i) == prev.cell_index(i));
                    assert(prev.cell_index(i) != prev.cell_index(prev.amount as int));
                    assert(prev.data@[prev.cell_index(i)] == Some(
                        prev.hist@[prev.hist@.len() - prev.amount + i],
                    ));
                }
            }
            assert(final(self).consumed() =~= old(self).consumed().push(item));
            assert(final(self).contents() =~= old(self).contents().push(item));
            assert(final(self).produced() =~= old(self).produced());
        }
    }

    /// Reads the oldest item without removing it.
    pub(crate) fn peek(&self) -> (r: T)
        requires
            self.inv(),
            self.contents().len() >= 1,
        ensures
            r == self.contents()[0],
    {
        proof {
            assert(self.data@[self.cell_index(0)] == Some(
                self.hist@[self.hist@.len() - self.amount],
            ));
        }
        self.data[self.read].unwrap()
    }

    pub(crate) fn produce(&mut self) -> (r: T)
        requires
            old(self).inv(),
            old(self).contents().len() >= 1,
        ensures
            final(self).inv(),
            final(self).cap() == old(self).cap(),
            r == old(self).contents()[0],
            final(self).contents() == old(self).contents().skip(1),
            final(self).consumed() == old(self).consumed(),
            final(self).produced() == old(self).produced().push(r),
    {
        let ghost prev = *self;
        let item = self.peek();
        self.read = if self.read + 1 == self.data.len() {
            0
        } else {
            self.read + 1
        };
        self.amount = self.amount - 1;
        proof {
            assert forall|i: int| 0 <= i < self.amount implies #[trigger] self.data@[self.cell_index(
                i,
            )] == Some(self.hist@[self.hist@.len() - self.amount + i]) by {
                assert(self.cell_index(i) == prev.cell_index(i + 1));
                assert(prev.data@[prev.cell_index(i + 1)] == Some(
                    prev.hist@[prev.hist@.len() - prev.amount + i + 1],
                ));
            }
            assert(final(self).contents() =~= old(self).contents().skip(1));
            assert(final(self).produced() =~= old(self).produced().push(item));
        }
        item
    }

    /// Removes the first `k` items of the contents, which must lie within
    /// the first readable run.
    pub(crate) fn advance_read(&mut self, k: usize)
        requires
            old(self).inv(),
            1 <= k <= old(self).front_run().len(),
        ensures
            final(self).inv(),
            final(self).cap() == old(self).cap(),
            final(self).contents() == old(self).contents().skip(k as int),
            final(self).consumed() == old(self).consumed(),
            final(self).produced() == old(self).produced() + old(self).contents().take(k as int),
    {
        let ghost prev = *self;
        self.read = if self.read + k == self.data.len() {
            0
        } else {
            self.read + k
        };
        self.amount = self.amount - k;
        proof {
            assert forall|i: int| 0 <= i < self.amount implies #[trigger] self.data@[self.cell_index(
                i,
            )] == Some(self.hist@[self.hist@.len() - self.amount + i]) by {
                assert(self.cell_index(i) == prev.cell_index(i + k));
                assert(prev.data@[prev.cell_index(i + k)] == Some(
                    prev.hist@[prev.hist@.len() - prev.amount + i + k],
                ));
            }
            assert(final(self).contents() =~= old(self).contents().skip(k as int));
            assert(final(self).produced() =~= old(self).produced() + old(self).contents().take(
                k as int,
            ));
        }
    }

    /// A copy of the first readable run.
    pub(crate) fn front_run_vec(&self) -> (r: Vec<T>)
        requires
            self.inv(),
            self.contents().len() >= 1,
        ensures
            r@ == self.front_run(),
            r@.len() >= 1,
    {
        let flen = if self.amount <= self.data.len() - self.read {
            self.amount
        } else {
            self.data.len() - self.read
        };
        let mut out: Vec<T> = Vec::new();
        let mut j: usize = 0;
        while j < flen
            invariant
                self.inv(),
                flen as nat == self.front_len(),
                self.contents().len() >= 1,
                j <= flen,
                out@ == self.front_run().take(j as int),
            decreases flen - j,
        {
            proof {
                assert(self.cell_index(j as int) == self.read + j);
                assert(self.data@[self.cell_index(j as int)] == Some(
                    self.hist@[self.hist@.len() - self.amount + j],
                ));
            }
            out.push(self.data[self.read + j].unwrap());
            proof {
                assert(out@ =~= self.front_run().take(j + 1));
            }
            j = j + 1;
        }
        proof {
            assert(out@ =~= self.front_run());
        }
        out
    }

    /// Length of the first writable run.
    pub(crate) fn free_run_len(&self) -> (r: usize)
        requires
            self.inv(),
        ensures
            r as nat == self.free_len(),
    {
        let cap = self.data.len();
        if self.amount < cap - self.read {
            cap - self.read - self.amount
        } else {
            cap - self.amount
        }
    }

    /// Whether the contents lie in a single run that does not touch the end
    /// of the allocation.
    pub(crate) closed spec fn contiguous(&self) -> bool {
        self.read + self.contents().len() <= self.cap()
    }

    pub(crate) fn is_data_contiguous(&self) -> (r: bool)
        requires
            self.inv(),
        ensures
            r == self.contiguous(),
    {
        self.amount <= self.data.len() - self.read
    }

    /// Extends the allocation in place; the contents must not wrap, so no
    /// data moves.
    pub(crate) fn extend_cap(&mut self, new_cap: usize)
        requires
            old(self).inv(),
            old(self).contiguous(),
            old(self).cap() <= new_cap,
        ensures
            final(self).inv(),
            final(self).cap() == new_cap,
            final(self).consumed() == old(self).consumed(),
            final(self).produced() == old(self).produced(),
            final(self).contents() == old(self).contents(),
            old(self).contents().len() == old(self).cap() ==> final(self).free_len() == new_cap
                - old(self).contents().len(),
    {
        let ghost prev = *self;
        while self.data.len() < new_cap
            invariant
                prev.inv(),
                prev.contiguous(),
                self.read == prev.read,
                self.amount == prev.amount,
                self.hist == prev.hist,
                new_cap <= usize::MAX,
                prev.cap() <= self.cap() <= new_cap,
                self.data@.take(prev.cap() as int) == prev.data@,
            decreases new_cap - self.data.len(),
        {
            self.data.push(None);
            proof {
                assert(self.data@.take(prev.cap() as int) =~= prev.data@);
            }
        }
        proof {
            assert forall|i: int| 0 <= i < self.amount implies #[trigger] self.data@[self.cell_index(
                i,
            )] == Some(self.hist@[self.hist@.len() - self.amount + i]) by {
                assert(self.cell_index(i) == prev.cell_index(i));
                assert(self.data@[prev.cell_index(i)] == prev.data@[prev.cell_index(i)]);
            }
        }
    }

    /// Moves the contents into a fresh allocation of the given size,
    /// linearizing any wrap; the read cursor returns to the start.
    pub(crate) fn resize_linearize(&mut self, new_cap: usize)
        requires
            old(self).inv(),
            old(self).contents().len() <= new_cap,
        ensures
            final(self).inv(),
            final(self).cap() == new_cap,
            final(self).consumed() == old(self).consumed(),
            final(self).produced() == old(self).produced(),
            final(self).contents() == old(self).contents(),
            final(self).free_len() == new_cap - old(self).contents().len(),
    {
        let ghost prev = *self;
        let mut nd: Vec<Option<T>> = Vec::new();
        let mut j: usize = 0;
        while j < self.amount
            invariant
                *self == prev,
                self.inv(),
                j <= self.amount,
                nd@.len() == j,
                forall|i: int|
                    0 <= i < j ==> #[trigger] nd@[i] == Some(
                        self.hist@[self.hist@.len() - self.amount + i],
                    ),
            decreases self.amount - j,
        {
            let cap = self.data.len();
            let idx = if j < cap - self.read {
                self.read + j
            } else {
                j - (cap - self.read)
            };
            proof {
                assert(idx == self.cell_index(j as int));
            }
            nd.push(self.data[idx]);
            j = j + 1;
        }
        while nd.len() < new_cap
            invariant
                *self == prev,
                self.inv(),
                new_cap <= usize::MAX,
                self.amount as nat <= nd@.len() <= new_cap,
                forall|i: int|
                    0 <= i < self.amount ==> #[trigger] nd@[i] == Some(
                        self.hist@[self.hist@.len() - self.amount + i],
                    ),
            decreases new_cap - nd.len(),
        {
            nd.push(None);
        }
        self.data = nd;
        self.read = 0;
    }

    /// Appends the first `k` items of `data`, which must fit into the free
    /// space.
    pub(crate) fn push_prefix(&mut self, data: &[T], k: usize)
        requires
            old(self).inv(),
            k <= data@.len(),
            old(self).contents().len() + k <= old(self).cap(),
        ensures
            final(self).inv(),
            final(self).cap() == old(self).cap(),
            final(self).consumed() == old(self).consumed() + data@.take(k as int),
            final(self).contents() == old(self).contents() + data@.take(k as int),
            final(self).produced() == old(self).produced(),
    {
        let ghost prev = *self;
        let mut i: usize = 0;
        while i < k
            invariant
                self.inv(),
                i <= k,
                k <= data@.len(),
                self.cap() == prev.cap(),
                prev.contents().len() + k <= prev.cap(),
                self.consumed() == prev.consumed() + data@.take(i as int),
                self.contents() == prev.contents() + data@.take(i as int),
                self.produced() == prev.produced(),
            decreases k - i,
        {
            self.consume(data[i]);
            proof {
                assert(self.consumed() =~= prev.consumed() + data@.take(i + 1));
                assert(self.contents() =~= prev.contents() + data@.take(i + 1));
            }
            i = i + 1;
        }
        proof {
            assert(final(self).consumed() == old(self).consumed() + data@.take(k as int));
        }
    }
}

} // verus!
