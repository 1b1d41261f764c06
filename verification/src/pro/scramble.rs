use core::marker::PhantomData;

use vstd::prelude::*;

use crate::pro::{BulkProducer, Producer};
use crate::ringbuffer::FixedBuffer;

verus! {

/// One step of the scripted mixture of calls a `ScrambleProducer` drives
/// its inner producer with. The window clamps must not be zero.
#[derive(Clone, Copy, Debug)]
pub enum ProduceOperation {
    /// Pull one item through the inner producer's single-item call.
    Produce,
    /// Take a clamped run from the inner window and stage it.
    ProducerSlots(usize),
    /// Have the inner bulk call fill a clamped run of the staging buffer.
    BulkProduce(usize),
    /// Slurp the inner producer.
    Slurp,
}

/// Whether one scripted operation is well-formed: window clamps are
/// non-zero.
pub open spec fn produce_op_valid(op: ProduceOperation) -> bool {
    match op {
        ProduceOperation::ProducerSlots(n) => n >= 1,
        ProduceOperation::BulkProduce(n) => n >= 1,
        _ => true,
    }
}

/// Whether a script is well-formed: every clamp is non-zero and at least
/// one operation is not a slurp, since a slurp-only script could never
/// fill staged data.
pub open spec fn produce_script_valid(s: Seq<ProduceOperation>) -> bool {
    &&& exists|i: int| 0 <= i < s.len() && !(#[trigger] s[i] is Slurp)
    &&& forall|i: int| 0 <= i < s.len() ==> produce_op_valid(#[trigger] s[i])
}

/// A validated, cyclically replayed script of producer operations.
pub struct ProduceOperations {
    ops: Vec<ProduceOperation>,
    // index of one operation that is not a slurp
    ns: Ghost<int>,
}

impl ProduceOperations {
    /// Validity of the script.
    pub closed spec fn wf(&self) -> bool {
        &&& 1 <= self.ops@.len() <= usize::MAX
        &&& 0 <= self.ns@ < self.ops@.len()
        &&& !(self.ops@[self.ns@] is Slurp)
        &&& forall|i: int| 0 <= i < self.ops@.len() ==> produce_op_valid(#[trigger] self.ops@[i])
    }

    /// The operations, in order.
    pub closed spec fn script(&self) -> Seq<ProduceOperation> {
        self.ops@
    }

    /// Checks that every clamp is non-zero and that the operations contain
    /// at least one non-slurp operation.
    pub fn new(operations: Vec<ProduceOperation>) -> (r: Option<ProduceOperations>)
        ensures
            r matches Some(ops) ==> ops.wf() && ops.script() == operations@,
            r is Some <==> produce_script_valid(operations@),
    {
        proof {
            vstd::std_specs::vec::axiom_spec_len(&operations);
        }
        let mut found: bool = false;
        let mut ns_idx: usize = 0;
        let mut i: usize = 0;
        while i < operations.len()
            invariant
                i <= operations@.len() <= usize::MAX,
                found <==> exists|j: int| 0 <= j < i && !(#[trigger] operations@[j] is Slurp),
                found ==> ns_idx < i && !(operations@[ns_idx as int] is Slurp),
                forall|j: int| 0 <= j < i ==> produce_op_valid(#[trigger] operations@[j]),
            decreases operations@.len() - i,
        {
            match operations[i] {
                ProduceOperation::Produce => {
                    if !found {
                        found = true;
                        ns_idx = i;
                    }
                },
                ProduceOperation::ProducerSlots(n) => {
                    if n == 0 {
                        return None;
                    }
                    if !found {
                        found = true;
                        ns_idx = i;
                    }
                },
                ProduceOperation::BulkProduce(n) => {
                    if n == 0 {
                        return None;
                    }
                    if !found {
                        found = true;
                        ns_idx = i;
                    }
                },
                ProduceOperation::Slurp => {},
            }
            i = i + 1;
        }
        if found {
            Some(ProduceOperations { ops: operations, ns: Ghost(ns_idx as int) })
        } else {
            None
        }
    }
}

/// Cyclic distance from position `i` to the script's non-slurp witness.
spec fn produce_ns_distance(script: ProduceOperations, i: int) -> int {
    if i <= script.ns@ {
        script.ns@ - i
    } else {
        script.ns@ + script.script().len() - i
    }
}

/// Wraps a bulk producer so that items pulled out through the plain
/// interface come from it through a scripted mixture of single-item,
/// window-clamped bulk and slurp calls, staged in a private ring buffer.
/// An error reported by the inner producer while staged items remain is
/// held in a pending slot and surfaced only once the staging buffer has
/// been fully drained: an error never shadows already-staged data.
pub struct ScrambleProducer<I, T, E> {
    inner: I,
    buf: FixedBuffer<T>,
    err: Option<E>,
    script: ProduceOperations,
    // position of the next scripted operation
    index: usize,
    // what the inner producer had already emitted when the wrapper took it
    base: Ghost<Seq<T>>,
    marker: PhantomData<E>,
}

impl<I: BulkProducer<T, E>, T: Copy, E> ScrambleProducer<I, T, E> {
    /// What still sits in the staging buffer, oldest first.
    pub closed spec fn staged(&self) -> Seq<T> {
        self.buf.contents()
    }

    /// The wrapped producer.
    pub closed spec fn inner_view(&self) -> I {
        self.inner
    }

    /// What the inner producer had emitted before it was wrapped.
    pub closed spec fn preexisting(&self) -> Seq<T> {
        self.base@
    }

    /// The inner error being held back until the staging buffer drains,
    /// if any.
    pub closed spec fn pending_error(&self) -> Option<E> {
        self.err
    }

    /// Whether an inner error is being held back until the staging buffer
    /// drains.
    pub open spec fn pending(&self) -> bool {
        self.pending_error() is Some
    }

    /// Capacity of the staging buffer.
    pub closed spec fn staging_capacity(&self) -> nat {
        self.buf.cap()
    }

    pub fn new(inner: I, operations: ProduceOperations, capacity: usize) -> (r: Self)
        requires
            inner.wf(),
            operations.wf(),
            capacity >= 1,
        ensures
            r.wf(),
            r.produced() == Seq::<T>::empty(),
            r.staged() == Seq::<T>::empty(),
            r.inner_view() == inner,
            r.preexisting() == inner.produced(),
            !r.pending(),
    {
        let base = Ghost(inner.produced());
        ScrambleProducer {
            inner,
            buf: FixedBuffer::new(capacity),
            err: None,
            script: operations,
            index: 0,
            base,
            marker: PhantomData,
        }
    }

    pub fn into_inner(self) -> (r: I)
        ensures
            r == self.inner_view(),
    {
        self.inner
    }

    pub fn as_ref(&self) -> (r: &I)
        ensures
            *r == self.inner_view(),
    {
        &self.inner
    }

    pub fn as_mut(&mut self) -> (r: &mut I)
        ensures
            *r == old(self).inner_view(),
            final(self).inner_view() == *final(r),
            final(self).staged() == old(self).staged(),
            final(self).preexisting() == old(self).preexisting(),
    {
        &mut self.inner
    }

    /// A well-formed wrapper holds a well-formed inner producer, so the
    /// inner object can keep being used after `into_inner`.
    pub proof fn lemma_wf_inner(&self)
        requires
            self.wf(),
        ensures
            self.inner_view().wf(),
    {
    }

    /// Scramble fidelity: everything the inner producer has emitted beyond
    /// its prior record is exactly what the wrapper has passed on, followed
    /// by what still sits in the staging buffer — for every script and
    /// staging capacity.
    pub proof fn lemma_scramble_fidelity(&self)
        requires
            self.wf(),
        ensures
            self.inner_view().produced() == self.preexisting() + self.produced() + self.staged(),
    {
        self.buf.lemma_facts();
        assert(self.inner_view().produced() =~= self.preexisting() + self.produced()
            + self.staged());
    }

    /// Performs the next scripted operation; the staging buffer must not be
    /// full. A non-slurp operation strictly fills it: the single-item
    /// operation stages exactly one item, a windowed operation at most its
    /// scripted clamp.
    fn perform_operation(&mut self) -> (r: Result<(), E>)
        requires
            old(self).wf(),
            old(self).staged().len() < old(self).buf.cap(),
        ensures
            final(self).wf(),
            final(self).produced() == old(self).produced(),
            final(self).preexisting() == old(self).preexisting(),
            final(self).buf.cap() == old(self).buf.cap(),
            final(self).script == old(self).script,
            final(self).err == old(self).err,
            old(self).staged().is_prefix_of(final(self).staged()),
            final(self).inner.produced() == old(self).inner.produced() + final(self).staged().skip(old(self).staged().len() as int),
            r is Ok ==> {
                &&& final(self).index as int == (if old(self).index + 1 == old(self).script.script().len() {
                    0int
                } else {
                    old(self).index + 1
                })
                &&& (old(self).script.script()[old(self).index as int] is Slurp ==> final(self).staged() == old(self).staged())
                &&& (!(old(self).script.script()[old(self).index as int] is Slurp) ==> final(self).staged().len() > old(self).staged().len())
                &&& (old(self).script.script()[old(self).index as int] is Produce ==> final(self).staged().len() - old(self).staged().len() == 1)
                &&& (old(self).script.script()[old(self).index as int] matches
                    ProduceOperation::ProducerSlots(n) ==> final(self).staged().len() - old(self).staged().len() <= n)
                &&& (old(self).script.script()[old(self).index as int] matches
                    ProduceOperation::BulkProduce(n) ==> final(self).staged().len() - old(self).staged().len() <= n)
            },
            r is Err ==> final(self).index == old(self).index && final(self).staged() == old(self).staged(),
    {
        proof {
            self.buf.lemma_facts();
        }
        let op = self.script.ops[self.index];
        match op {
            ProduceOperation::Produce => {
                match self.inner.produce() {
                    Ok(item) => {
                        self.buf.consume(item);
                        proof {
                            assert(self.staged().skip(old(self).staged().len() as int) =~= seq![
                                item,
                            ]);
                        }
                    },
                    Err(e) => {
                        proof {
                            assert(old(self).staged().skip(old(self).staged().len() as int) =~= Seq::<
                                T,
                            >::empty());
                            assert(old(self).inner.produced() + Seq::<T>::empty() =~= old(self).inner.produced());
                        }
                        return Err(e);
                    },
                }
            },
            ProduceOperation::ProducerSlots(n) => {
                let mut v = match self.inner.producer_slots() {
                    Ok(v) => v,
                    Err(e) => {
                        proof {
                            assert(old(self).staged().skip(old(self).staged().len() as int) =~= Seq::<
                                T,
                            >::empty());
                            assert(old(self).inner.produced() + Seq::<T>::empty() =~= old(self).inner.produced());
                        }
                        return Err(e);
                    },
                };
                let ghost islots = self.inner.slots();
                if v.len() > n {
                    v.truncate(n);
                }
                let free = self.buf.free_run_len();
                let k = v.len();
                let m = if free < k {
                    free
                } else {
                    k
                };
                self.buf.push_prefix(v.as_slice(), m);
                proof {
                    assert(v@.take(m as int) =~= islots.take(m as int));
                }
                self.inner.did_produce(m);
                proof {
                    assert(self.staged().skip(old(self).staged().len() as int) =~= islots.take(
                        m as int,
                    ));
                }
            },
            ProduceOperation::BulkProduce(n) => {
                let free = self.buf.free_run_len();
                let k = if free < n {
                    free
                } else {
                    n
                };
                match self.inner.bulk_produce(k) {
                    Ok(v) => {
                        let m = v.len();
                        self.buf.push_prefix(v.as_slice(), m);
                        proof {
                            assert(v@.take(m as int) =~= v@);
                            assert(self.staged().skip(old(self).staged().len() as int) =~= v@);
                        }
                    },
                    Err(e) => {
                        proof {
                            assert(old(self).staged().skip(old(self).staged().len() as int) =~= Seq::<
                                T,
                            >::empty());
                            assert(old(self).inner.produced() + Seq::<T>::empty() =~= old(self).inner.produced());
                        }
                        return Err(e);
                    },
                }
            },
            ProduceOperation::Slurp => {
                match self.inner.slurp() {
                    Ok(()) => {
                        proof {
                            assert(old(self).staged().skip(old(self).staged().len() as int) =~= Seq::<
                                T,
                            >::empty());
                            assert(old(self).inner.produced() + Seq::<T>::empty() =~= old(self).inner.produced());
                        }
                    },
                    Err(e) => {
                        proof {
                            assert(old(self).staged().skip(old(self).staged().len() as int) =~= Seq::<
                                T,
                            >::empty());
                            assert(old(self).inner.produced() + Seq::<T>::empty() =~= old(self).inner.produced());
                        }
                        return Err(e);
                    },
                }
            },
        }
        self.index = if self.index + 1 == self.script.ops.len() {
            0
        } else {
            self.index + 1
        };
        proof {
            assert(self.inner.produced() =~= self.base@ + self.buf.consumed());
        }
        Ok(())
    }
}

impl<I: BulkProducer<T, E>, T: Copy, E> Producer<T, E> for ScrambleProducer<I, T, E> {
    closed spec fn wf(&self) -> bool {
        &&& self.inner.wf()
        &&& self.buf.inv()
        &&& 1 <= self.buf.cap()
        &&& self.script.wf()
        &&& self.index < self.script.script().len()
        &&& self.inner.produced() == self.base@ + self.buf.consumed()
    }

    closed spec fn produced(&self) -> Seq<T> {
        self.buf.produced()
    }

    /// An error never shadows already-staged data: with items staged this
    /// always succeeds, handing out the oldest of them; with empty staging
    /// and a pending error it surfaces exactly that error and clears the
    /// slot.
    #[verifier::loop_isolation(false)]
    fn produce(&mut self) -> (r: Result<T, E>)
        ensures
            final(self).preexisting() == old(self).preexisting(),
            final(self).staging_capacity() == old(self).staging_capacity(),
            old(self).staged().len() >= 1 ==> (r matches Ok(item) && item == old(self).staged()[0]),
            r is Err ==> old(self).staged().len() == 0,
            old(self).staged().len() == 0 && old(self).pending() ==> (r matches Err(e) && Some(e)
                == old(self).pending_error() && !final(self).pending()),
            r is Err ==> !final(self).pending(),
            r is Ok ==> final(self).pending_error() == old(self).pending_error(),
    {
        proof {
            self.buf.lemma_facts();
        }
        if self.buf.get_amount() == 0 {
            let mut pending: Option<E> = None;
            core::mem::swap(&mut pending, &mut self.err);
            match pending {
                Some(e) => {
                    return Err(e);
                },
                None => {},
            }
        }
        while self.buf.get_amount() == 0
            invariant
                self.wf(),
                self.preexisting() == old(self).preexisting(),
                self.produced() == old(self).produced(),
                self.buf.cap() == old(self).buf.cap(),
                self.err == old(self).err,
                old(self).staged().len() >= 1 ==> *self == *old(self),
            decreases self.buf.cap() - self.staged().len(), produce_ns_distance(self.script, self.index as int),
        {
            proof {
                self.buf.lemma_facts();
            }
            match self.perform_operation() {
                Ok(()) => {
                    proof {
                        self.buf.lemma_facts();
                    }
                },
                Err(e) => {
                    return Err(e);
                },
            }
        }
        proof {
            self.buf.lemma_facts();
        }
        Ok(self.buf.produce())
    }

    /// Fills the staging buffer through scripted operations. An inner error
    /// met on the way is moved into the pending slot and the call still
    /// succeeds: already-staged items are always retained. With empty
    /// staging and a pending error it surfaces exactly that error and
    /// clears the slot.
    #[verifier::loop_isolation(false)]
    fn slurp(&mut self) -> (r: Result<(), E>)
        ensures
            final(self).preexisting() == old(self).preexisting(),
            final(self).staging_capacity() == old(self).staging_capacity(),
            old(self).staged().is_prefix_of(final(self).staged()),
            old(self).staged().len() == 0 && old(self).pending() ==> (r matches Err(e) && Some(e)
                == old(self).pending_error() && !final(self).pending() && final(self).staged()
                == old(self).staged()),
            r is Ok ==> final(self).staged().len() == final(self).staging_capacity() || final(self).pending(),
            r is Err ==> (old(self).pending() && old(self).staged().len() == 0) || final(self).staged().len() == final(self).staging_capacity(),
    {
        proof {
            self.buf.lemma_facts();
        }
        if self.buf.get_amount() == 0 {
            let mut pending: Option<E> = None;
            core::mem::swap(&mut pending, &mut self.err);
            match pending {
                Some(e) => {
                    return Err(e);
                },
                None => {},
            }
        }
        while self.buf.get_amount() < self.buf.get_capacity()
            invariant
                self.wf(),
                self.preexisting() == old(self).preexisting(),
                self.produced() == old(self).produced(),
                self.buf.cap() == old(self).buf.cap(),
                old(self).staged().is_prefix_of(self.staged()),
            decreases self.buf.cap() - self.staged().len(), produce_ns_distance(self.script, self.index as int),
        {
            proof {
                self.buf.lemma_facts();
            }
            match self.perform_operation() {
                Ok(()) => {
                    proof {
                        self.buf.lemma_facts();
                        assert(old(self).staged() =~= self.staged().take(
                            old(self).staged().len() as int,
                        ));
                    }
                },
                Err(e) => {
                    self.err = Some(e);
                    return Ok(());
                },
            }
        }
        proof {
            self.buf.lemma_facts();
            assert(self.staged().len() == self.staging_capacity());
        }
        match self.inner.slurp() {
            Ok(()) => Ok(()),
            Err(e) => Err(e),
        }
    }
}

impl<I: BulkProducer<T, E>, T: Copy, E> BulkProducer<T, E> for ScrambleProducer<I, T, E> {
    closed spec fn slots(&self) -> Seq<T> {
        self.buf.front_run()
    }

    #[verifier::loop_isolation(false)]
    fn producer_slots(&mut self) -> (r: Result<Vec<T>, E>)
        ensures
            r is Err ==> old(self).staged().len() == 0,
            r matches Ok(v) ==> v@ == final(self).staged().take(v@.len() as int),
            final(self).preexisting() == old(self).preexisting(),
            final(self).staging_capacity() == old(self).staging_capacity(),
            old(self).staged().len() == 0 && old(self).pending() ==> (r matches Err(e) && Some(e)
                == old(self).pending_error() && !final(self).pending()),
            r is Err ==> !final(self).pending(),
            r is Ok ==> final(self).pending_error() == old(self).pending_error(),
    {
        proof {
            self.buf.lemma_facts();
        }
        if self.buf.get_amount() == 0 {
            let mut pending: Option<E> = None;
            core::mem::swap(&mut pending, &mut self.err);
            match pending {
                Some(e) => {
                    return Err(e);
                },
                None => {},
            }
        }
        while self.buf.get_amount() == 0
            invariant
                self.wf(),
                self.preexisting() == old(self).preexisting(),
                self.produced() == old(self).produced(),
                self.buf.cap() == old(self).buf.cap(),
                self.err == old(self).err,
                old(self).staged().len() >= 1 ==> *self == *old(self),
            decreases self.buf.cap() - self.staged().len(), produce_ns_distance(self.script, self.index as int),
        {
            proof {
                self.buf.lemma_facts();
            }
            match self.perform_operation() {
                Ok(()) => {
                    proof {
                        self.buf.lemma_facts();
                    }
                },
                Err(e) => {
                    return Err(e);
                },
            }
        }
        proof {
            self.buf.lemma_facts();
        }
        Ok(self.buf.front_run_vec())
    }

    fn did_produce(&mut self, amount: usize)
        ensures
            final(self).inner_view() == old(self).inner_view(),
            final(self).preexisting() == old(self).preexisting(),
            final(self).staging_capacity() == old(self).staging_capacity(),
            final(self).pending_error() == old(self).pending_error(),
    {
        proof {
            self.buf.lemma_facts();
            assert(old(self).buf.front_run().take(amount as int) =~= old(self).buf.contents().take(amount as int));
        }
        self.buf.advance_read(amount);
    }

    #[verifier::loop_isolation(false)]
    fn bulk_produce(&mut self, buffer_len: usize) -> (r: Result<Vec<T>, E>)
        ensures
            r is Err ==> old(self).staged().len() == 0,
            final(self).preexisting() == old(self).preexisting(),
            final(self).staging_capacity() == old(self).staging_capacity(),
            old(self).staged().len() == 0 && old(self).pending() ==> (r matches Err(e) && Some(e)
                == old(self).pending_error() && !final(self).pending()),
            r is Err ==> !final(self).pending(),
            r is Ok ==> final(self).pending_error() == old(self).pending_error(),
    {
        proof {
            self.buf.lemma_facts();
        }
        if self.buf.get_amount() == 0 {
            let mut pending: Option<E> = None;
            core::mem::swap(&mut pending, &mut self.err);
            match pending {
                Some(e) => {
                    return Err(e);
                },
                None => {},
            }
        }
        while self.buf.get_amount() == 0
            invariant
                self.wf(),
                self.preexisting() == old(self).preexisting(),
                self.produced() == old(self).produced(),
                self.buf.cap() == old(self).buf.cap(),
                self.err == old(self).err,
                old(self).staged().len() >= 1 ==> *self == *old(self),
            decreases self.buf.cap() - self.staged().len(), produce_ns_distance(self.script, self.index as int),
        {
            proof {
                self.buf.lemma_facts();
            }
            match self.perform_operation() {
                Ok(()) => {
                    proof {
                        self.buf.lemma_facts();
                    }
                },
                Err(e) => {
                    return Err(e);
                },
            }
        }
        proof {
            self.buf.lemma_facts();
        }
        let mut v = self.buf.front_run_vec();
        if v.len() > buffer_len {
            v.truncate(buffer_len);
        }
        proof {
            assert(v@ =~= self.buf.contents().take(v@.len() as int));
        }
        let n = v.len();
        self.buf.advance_read(n);
        Ok(v)
    }
}

/// Nesting: two independently scripted scramble wrappers around one inner
/// producer still account for every emitted item exactly once: what the
/// innermost producer emitted beyond its prior record is what left the
/// outer wrapper, plus what is staged in either layer.
pub proof fn lemma_scramble_nested<I: BulkProducer<T, E>, T: Copy, E>(
    s: &ScrambleProducer<ScrambleProducer<I, T, E>, T, E>,
)
    requires
        s.wf(),
    ensures
        s.inner_view().inner_view().produced() == s.inner_view().preexisting() + (s.preexisting()
            + s.produced() + s.staged()) + s.inner_view().staged(),
{
    s.lemma_scramble_fidelity();
    s.inner_view().lemma_scramble_fidelity();
    assert(s.inner_view().inner_view().produced() =~= s.inner_view().preexisting() + (
    s.preexisting() + s.produced() + s.staged()) + s.inner_view().staged());
}

} // verus!
