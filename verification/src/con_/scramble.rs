use core::marker::PhantomData;

use vstd::prelude::*;

use crate::con_::{BulkConsumer, Consumer};
use crate::ringbuffer::FixedBuffer;

verus! {

/// One step of the scripted mixture of calls a `ScrambleConsumer` drives
/// its inner consumer with. The window clamps must not be zero.
#[derive(Clone, Copy, Debug)]
pub enum ConsumeOperation {
    /// Forward one staged item through the inner consumer's single-item call.
    Consume,
    /// Query the inner window and copy a clamped run of staged items into it.
    ConsumerSlots(usize),
    /// Hand a clamped run of staged items to the inner bulk call.
    BulkConsume(usize),
    /// Flush the inner consumer.
    Flush,
}

/// Whether one scripted operation is well-formed: window clamps are
/// non-zero.
pub open spec fn consume_op_valid(op: ConsumeOperation) -> bool {
    match op {
        ConsumeOperation::ConsumerSlots(n) => n >= 1,
        ConsumeOperation::BulkConsume(n) => n >= 1,
        _ => true,
    }
}

/// Whether a script is well-formed: every clamp is non-zero and at least
/// one operation is not a flush, since a flush-only script could never
/// drain staged data.
pub open spec fn consume_script_valid(s: Seq<ConsumeOperation>) -> bool {
    &&& exists|i: int| 0 <= i < s.len() && !(#[trigger] s[i] is Flush)
    &&& forall|i: int| 0 <= i < s.len() ==> consume_op_valid(#[trigger] s[i])
}

/// A validated, cyclically replayed script of consumer operations.
pub struct ConsumeOperations {
    ops: Vec<ConsumeOperation>,
    // index of one operation that is not a flush
    nf: Ghost<int>,
}

impl ConsumeOperations {
    /// Validity of the script.
    pub closed spec fn wf(&self) -> bool {
        &&& 1 <= self.ops@.len() <= usize::MAX
        &&& 0 <= self.nf@ < self.ops@.len()
        &&& !(self.ops@[self.nf@] is Flush)
        &&& forall|i: int| 0 <= i < self.ops@.len() ==> consume_op_valid(#[trigger] self.ops@[i])
    }

    /// The operations, in order.
    pub closed spec fn script(&self) -> Seq<ConsumeOperation> {
        self.ops@
    }

    /// Checks that every clamp is non-zero and that the operations contain
    /// at least one non-flush operation.
    pub fn new(operations: Vec<ConsumeOperation>) -> (r: Option<ConsumeOperations>)
        ensures
            r matches Some(ops) ==> ops.wf() && ops.script() == operations@,
            r is Some <==> consume_script_valid(operations@),
    {
        proof {
            vstd::std_specs::vec::axiom_spec_len(&operations);
        }
        let mut found: bool = false;
        let mut nf_idx: usize = 0;
        let mut i: usize = 0;
        while i < operations.len()
            invariant
                i <= operations@.len() <= usize::MAX,
                found <==> exists|j: int| 0 <= j < i && !(#[trigger] operations@[j] is Flush),
                found ==> nf_idx < i && !(operations@[nf_idx as int] is Flush),
                forall|j: int| 0 <= j < i ==> consume_op_valid(#[trigger] operations@[j]),
            decreases operations@.len() - i,
        {
            match operations[i] {
                ConsumeOperation::Consume => {
                    if !found {
                        found = true;
                        nf_idx = i;
                    }
                },
                ConsumeOperation::ConsumerSlots(n) => {
                    if n == 0 {
                        return None;
                    }
                    if !found {
                        found = true;
                        nf_idx = i;
                    }
                },
                ConsumeOperation::BulkConsume(n) => {
                    if n == 0 {
                        return None;
                    }
                    if !found {
                        found = true;
                        nf_idx = i;
                    }
                },
                ConsumeOperation::Flush => {},
            }
            i = i + 1;
        }
        if found {
            Some(ConsumeOperations { ops: operations, nf: Ghost(nf_idx as int) })
        } else {
            None
        }
    }
}

/// Cyclic distance from position `i` to the script's non-flush witness.
spec fn consume_nf_distance(script: ConsumeOperations, i: int) -> int {
    if i <= script.nf@ {
        script.nf@ - i
    } else {
        script.nf@ + script.script().len() - i
    }
}

/// Wraps a bulk consumer so that items fed in through the plain interface
/// reach it through a scripted mixture of single-item, window-clamped bulk
/// and flush calls, staged in a private ring buffer. A conforming inner
/// consumer receives exactly the fed items, in order, whatever the script
/// and staging capacity.
pub struct ScrambleConsumer<I, T, E> {
    inner: I,
    buf: FixedBuffer<T>,
    script: ConsumeOperations,
    // position of the next scripted operation
    index: usize,
    // what the inner consumer had already accepted when the wrapper took it
    base: Ghost<Seq<T>>,
    marker: PhantomData<E>,
}

impl<I: BulkConsumer<T, E>, T: Copy, E> ScrambleConsumer<I, T, E> {
    /// What still sits in the staging buffer, oldest first.
    pub closed spec fn staged(&self) -> Seq<T> {
        self.buf.contents()
    }

    /// The wrapped consumer.
    pub closed spec fn inner_view(&self) -> I {
        self.inner
    }

    /// What the inner consumer had accepted before it was wrapped.
    pub closed spec fn preexisting(&self) -> Seq<T> {
        self.base@
    }

    pub fn new(inner: I, operations: ConsumeOperations, capacity: usize) -> (r: Self)
        requires
            inner.wf(),
            operations.wf(),
            capacity >= 1,
        ensures
            r.wf(),
            r.consumed() == Seq::<T>::empty(),
            r.staged() == Seq::<T>::empty(),
            r.inner_view() == inner,
            r.preexisting() == inner.consumed(),
    {
        let base = Ghost(inner.consumed());
        ScrambleConsumer {
            inner,
            buf: FixedBuffer::new(capacity),
            script: operations,
            index: 0,
            base,
            marker: PhantomData,
        }
    }

    pub fn into_inner(self) -> (r: I)
        ensures
            r == self.inner_view(),
    {
        self.inner
    }

    pub fn as_ref(&self) -> (r: &I)
        ensures
            *r == self.inner_view(),
    {
        &self.inner
    }

    pub fn as_mut(&mut self) -> (r: &mut I)
        ensures
            *r == old(self).inner_view(),
            final(self).inner_view() == *final(r),
            final(self).staged() == old(self).staged(),
            final(self).preexisting() == old(self).preexisting(),
    {
        &mut self.inner
    }

    /// A well-formed wrapper holds a well-formed inner consumer, so the
    /// inner object can keep being used after `into_inner`.
    pub proof fn lemma_wf_inner(&self)
        requires
            self.wf(),
        ensures
            self.inner_view().wf(),
    {
    }

    /// Once the wrapper reports itself flushed, nothing remains staged:
    /// everything fed in has reached the inner consumer, which is itself
    /// flushed.
    pub proof fn lemma_flushed_fidelity(&self)
        requires
            self.wf(),
            self.flushed(),
        ensures
            self.staged().len() == 0,
            self.preexisting() + self.consumed() == self.inner_view().consumed(),
            self.inner_view().flushed(),
    {
        self.lemma_scramble_fidelity();
        assert(self.preexisting() + self.consumed() =~= self.inner_view().consumed());
    }

    /// Scramble fidelity: everything fed into the wrapper is exactly what
    /// has reached the inner consumer beyond its prior record, plus what
    /// still sits in the staging buffer — for every script and staging
    /// capacity.
    pub proof fn lemma_scramble_fidelity(&self)
        requires
            self.wf(),
        ensures
            self.preexisting() + self.consumed() == self.inner_view().consumed() + self.staged(),
    {
        self.buf.lemma_facts();
        assert(self.preexisting() + self.consumed() =~= self.inner_view().consumed()
            + self.staged());
    }

    /// Performs the next scripted operation; the staging buffer must not be
    /// empty. A non-flush operation strictly drains it: the single-item
    /// operation forwards exactly one item, a windowed operation at most
    /// its scripted clamp.
    fn perform_operation(&mut self) -> (r: Result<(), E>)
        requires
            old(self).wf(),
            old(self).staged().len() >= 1,
        ensures
            final(self).wf(),
            final(self).consumed() == old(self).consumed(),
            final(self).preexisting() == old(self).preexisting(),
            final(self).buf.cap() == old(self).buf.cap(),
            final(self).script == old(self).script,
            final(self).inner.consumed() == old(self).inner.consumed() + old(self).staged().take(
                old(self).staged().len() - final(self).staged().len(),
            ),
            r is Ok ==> {
                &&& final(self).index as int == (if old(self).index + 1 == old(self).script.script().len() {
                    0int
                } else {
                    old(self).index + 1
                })
                &&& (old(self).script.script()[old(self).index as int] is Flush ==> final(self).staged() == old(self).staged())
                &&& (!(old(self).script.script()[old(self).index as int] is Flush) ==> final(self).staged().len() < old(self).staged().len())
                &&& (old(self).script.script()[old(self).index as int] is Consume ==> old(self).staged().len() - final(self).staged().len() == 1)
                &&& (old(self).script.script()[old(self).index as int] matches
                    ConsumeOperation::ConsumerSlots(n) ==> old(self).staged().len() - final(self).staged().len() <= n)
                &&& (old(self).script.script()[old(self).index as int] matches
                    ConsumeOperation::BulkConsume(n) ==> old(self).staged().len() - final(self).staged().len() <= n)
            },
            r is Err ==> final(self).index == old(self).index && final(self).staged() == old(self).staged(),
    {
        proof {
            self.buf.lemma_facts();
        }
        let op = self.script.ops[self.index];
        match op {
            ConsumeOperation::Consume => {
                let item = self.buf.peek();
                match self.inner.consume(item) {
                    Ok(()) => {
                        proof {
                            assert(old(self).staged().take(1) =~= seq![item]);
                        }
                        self.buf.advance_read(1);
                    },
                    Err(e) => {
                        proof {
                            assert(old(self).staged().take(0) =~= Seq::<T>::empty());
                            assert(old(self).inner.consumed() + Seq::<T>::empty() =~= old(self).inner.consumed());
                        }
                        return Err(e);
                    },
                }
            },
            ConsumeOperation::ConsumerSlots(n) => {
                let l = match self.inner.consumer_slots() {
                    Ok(l) => l,
                    Err(e) => {
                        proof {
                            assert(old(self).staged().take(0) =~= Seq::<T>::empty());
                            assert(old(self).inner.consumed() + Seq::<T>::empty() =~= old(self).inner.consumed());
                        }
                        return Err(e);
                    },
                };
                let k = if l < n {
                    l
                } else {
                    n
                };
                let mut v = self.buf.front_run_vec();
                if v.len() > k {
                    v.truncate(k);
                }
                proof {
                    assert(v@ =~= self.buf.contents().take(v@.len() as int));
                }
                match self.inner.bulk_consume(v.as_slice()) {
                    Ok(m) => {
                        proof {
                            assert(v@.take(m as int) =~= v@);
                        }
                        self.buf.advance_read(m);
                    },
                    Err(e) => {
                        proof {
                            assert(old(self).staged().take(0) =~= Seq::<T>::empty());
                            assert(old(self).inner.consumed() + Seq::<T>::empty() =~= old(self).inner.consumed());
                        }
                        return Err(e);
                    },
                }
            },
            ConsumeOperation::BulkConsume(n) => {
                let mut v = self.buf.front_run_vec();
                if v.len() > n {
                    v.truncate(n);
                }
                proof {
                    assert(v@ =~= self.buf.contents().take(v@.len() as int));
                }
                match self.inner.bulk_consume(v.as_slice()) {
                    Ok(m) => {
                        proof {
                            assert(v@.take(m as int) =~= self.buf.contents().take(m as int));
                        }
                        self.buf.advance_read(m);
                    },
                    Err(e) => {
                        proof {
                            assert(old(self).staged().take(0) =~= Seq::<T>::empty());
                            assert(old(self).inner.consumed() + Seq::<T>::empty() =~= old(self).inner.consumed());
                        }
                        return Err(e);
                    },
                }
            },
            ConsumeOperation::Flush => {
                match self.inner.flush() {
                    Ok(()) => {},
                    Err(e) => {
                        proof {
                            assert(old(self).staged().take(0) =~= Seq::<T>::empty());
                            assert(old(self).inner.consumed() + Seq::<T>::empty() =~= old(self).inner.consumed());
                        }
                        return Err(e);
                    },
                }
            },
        }
        self.index = if self.index + 1 == self.script.ops.len() {
            0
        } else {
            self.index + 1
        };
        proof {
            assert(final(self).inner.consumed() == old(self).inner.consumed() + old(self).staged().take(old(self).staged().len() - final(self).staged().len()));
            assert(self.inner.consumed() =~= self.base@ + self.buf.produced());
        }
        Ok(())
    }
}

impl<I: BulkConsumer<T, E>, T: Copy, E> Consumer<T, E> for ScrambleConsumer<I, T, E> {
    closed spec fn wf(&self) -> bool {
        &&& self.inner.wf()
        &&& self.buf.inv()
        &&& 1 <= self.buf.cap()
        &&& self.script.wf()
        &&& self.index < self.script.script().len()
        &&& self.inner.consumed() == self.base@ + self.buf.produced()
    }

    closed spec fn consumed(&self) -> Seq<T> {
        self.buf.consumed()
    }

    closed spec fn flushed(&self) -> bool {
        self.staged().len() == 0 && self.inner.flushed()
    }

    #[verifier::loop_isolation(false)]
    fn consume(&mut self, item: T) -> (r: Result<(), E>)
        ensures
            final(self).preexisting() == old(self).preexisting(),
    {
        proof {
            self.buf.lemma_facts();
        }
        while self.buf.get_amount() == self.buf.get_capacity()
            invariant
                self.wf(),
                self.preexisting() == old(self).preexisting(),
                self.consumed() == old(self).consumed(),
                self.buf.cap() == old(self).buf.cap(),
            decreases self.staged().len(), consume_nf_distance(self.script, self.index as int),
        {
            match self.perform_operation() {
                Ok(()) => {},
                Err(e) => {
                    return Err(e);
                },
            }
        }
        proof {
            self.buf.lemma_facts();
        }
        self.buf.consume(item);
        Ok(())
    }

    #[verifier::loop_isolation(false)]
    fn flush(&mut self) -> (r: Result<(), E>)
        ensures
            final(self).preexisting() == old(self).preexisting(),
            r is Ok ==> final(self).staged().len() == 0 && final(self).preexisting() + final(self).consumed() == final(self).inner_view().consumed(),
    {
        while self.buf.get_amount() > 0
            invariant
                self.wf(),
                self.preexisting() == old(self).preexisting(),
                self.consumed() == old(self).consumed(),
            decreases self.staged().len(), consume_nf_distance(self.script, self.index as int),
        {
            match self.perform_operation() {
                Ok(()) => {},
                Err(e) => {
                    return Err(e);
                },
            }
        }
        proof {
            self.buf.lemma_facts();
        }
        match self.inner.flush() {
            Ok(()) => Ok(()),
            Err(e) => Err(e),
        }
    }
}

impl<I: BulkConsumer<T, E>, T: Copy, E> BulkConsumer<T, E> for ScrambleConsumer<I, T, E> {
    closed spec fn space(&self) -> nat {
        self.buf.free_len()
    }

    #[verifier::loop_isolation(false)]
    fn consumer_slots(&mut self) -> (r: Result<usize, E>)
        ensures
            final(self).preexisting() == old(self).preexisting(),
    {
        while self.buf.get_amount() == self.buf.get_capacity()
            invariant
                self.wf(),
                self.preexisting() == old(self).preexisting(),
                self.consumed() == old(self).consumed(),
                self.buf.cap() == old(self).buf.cap(),
            decreases self.staged().len(), consume_nf_distance(self.script, self.index as int),
        {
            proof {
                self.buf.lemma_facts();
            }
            match self.perform_operation() {
                Ok(()) => {},
                Err(e) => {
                    return Err(e);
                },
            }
        }
        proof {
            self.buf.lemma_facts();
        }
        Ok(self.buf.free_run_len())
    }

    #[verifier::loop_isolation(false)]
    fn bulk_consume(&mut self, data: &[T]) -> (r: Result<usize, E>)
        ensures
            final(self).preexisting() == old(self).preexisting(),
            r matches Ok(n) ==> (old(self).space() >= 1 && data@.len() > old(self).space()
                ==> n as nat == old(self).space()),
    {
        while self.buf.get_amount() == self.buf.get_capacity()
            invariant
                self.wf(),
                self.preexisting() == old(self).preexisting(),
                self.consumed() == old(self).consumed(),
                self.buf.cap() == old(self).buf.cap(),
                old(self).buf.free_len() >= 1 ==> *self == *old(self),
            decreases self.staged().len(), consume_nf_distance(self.script, self.index as int),
        {
            proof {
                self.buf.lemma_facts();
            }
            match self.perform_operation() {
                Ok(()) => {},
                Err(e) => {
                    return Err(e);
                },
            }
        }
        proof {
            self.buf.lemma_facts();
        }
        let free = self.buf.free_run_len();
        let n = if free < data.len() {
            free
        } else {
            data.len()
        };
        self.buf.push_prefix(data, n);
        Ok(n)
    }
}

/// Nesting: two independently scripted scramble wrappers around one inner
/// consumer still account for every fed item exactly once: what went into
/// the outer wrapper is what reached the innermost consumer beyond its
/// prior record, plus what is staged in either layer.
pub proof fn lemma_scramble_nested<I: BulkConsumer<T, E>, T: Copy, E>(
    s: &ScrambleConsumer<ScrambleConsumer<I, T, E>, T, E>,
)
    requires
        s.wf(),
    ensures
        s.inner_view().preexisting() + s.preexisting() + s.consumed() == s.inner_view().inner_view().consumed()
            + s.inner_view().staged() + s.staged(),
{
    s.lemma_scramble_fidelity();
    s.inner_view().lemma_scramble_fidelity();
    assert(s.inner_view().preexisting() + s.preexisting() + s.consumed()
        =~= s.inner_view().preexisting() + (s.preexisting() + s.consumed()));
    assert(s.inner_view().preexisting() + (s.inner_view().consumed() + s.staged())
        =~= (s.inner_view().preexisting() + s.inner_view().consumed()) + s.staged());
    assert((s.inner_view().inner_view().consumed() + s.inner_view().staged()) + s.staged()
        =~= s.inner_view().inner_view().consumed() + s.inner_view().staged() + s.staged());
}

/// Nesting at flush time: once the outer of two independently scripted
/// wrappers reports itself flushed, both staging layers are empty and the
/// innermost consumer has received everything that was fed to the outer
/// wrapper.
pub proof fn lemma_scramble_nested_flushed<I: BulkConsumer<T, E>, T: Copy, E>(
    s: &ScrambleConsumer<ScrambleConsumer<I, T, E>, T, E>,
)
    requires
        s.wf(),
        s.flushed(),
    ensures
        s.inner_view().preexisting() + s.preexisting() + s.consumed()
            == s.inner_view().inner_view().consumed(),
        s.inner_view().inner_view().flushed(),
{
    s.lemma_flushed_fidelity();
    s.inner_view().lemma_flushed_fidelity();
    assert(s.inner_view().preexisting() + s.preexisting() + s.consumed()
        =~= s.inner_view().preexisting() + (s.preexisting() + s.consumed()));
}

} // verus!
