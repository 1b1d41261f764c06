use core::marker::PhantomData;

use vstd::prelude::*;

use crate::pro::{BulkProducer, Producer};

verus! {

/// Wraps a producer so that its errors pass through the given pure
/// function; everything else is left untouched. The function must accept
/// every error value.
pub fn map_err<T, E, E2, I: Producer<T, E>, F: Fn(E) -> E2>(inner: I, f: F) -> (r: MapErr<
    I,
    F,
    E,
>)
    requires
        inner.wf(),
        forall|e: E| call_requires(f, (e,)),
    ensures
        r.wf(),
        r.produced() == inner.produced(),
        r.inner_view() == inner,
        r.func_view() == f,
{
    let r = MapErr { inner, f, marker: PhantomData };
    proof {
        assert forall|e: E| call_requires(r.func_view(), (e,)) by {
            assert(call_requires(f, (e,)));
        }
    }
    r
}

/// Whether `e2` is a value the error-translating function can return for
/// some inner error.
pub open spec fn translates<E, E2, F: Fn(E) -> E2>(f: F, e2: E2) -> bool {
    exists|e: E| call_ensures(f, (e,), e2)
}

/// A producer that behaves exactly like its inner producer, with errors
/// translated by a caller-supplied function.
pub struct MapErr<I, F, E> {
    inner: I,
    f: F,
    marker: PhantomData<E>,
}

impl<I, F, E> MapErr<I, F, E> {
    /// The wrapped producer.
    pub closed spec fn inner_view(&self) -> I {
        self.inner
    }

    /// The error-translating function.
    pub closed spec fn func_view(&self) -> F {
        self.f
    }

    pub fn into_inner(self) -> (r: I)
        ensures
            r == self.inner_view(),
    {
        self.inner
    }

    pub fn as_ref(&self) -> (r: &I)
        ensures
            *r == self.inner_view(),
    {
        &self.inner
    }

    pub fn as_mut(&mut self) -> (r: &mut I)
        ensures
            *r == old(self).inner_view(),
            final(self).inner_view() == *final(r),
            final(self).func_view() == old(self).func_view(),
    {
        &mut self.inner
    }
}

impl<T, E, E2, I: Producer<T, E>, F: Fn(E) -> E2> Producer<T, E2> for MapErr<I, F, E> {
    closed spec fn wf(&self) -> bool {
        self.inner.wf() && forall|e: E| call_requires(self.f, (e,))
    }

    closed spec fn produced(&self) -> Seq<T> {
        self.inner.produced()
    }

    fn produce(&mut self) -> (r: Result<T, E2>)
        ensures
            r matches Err(e2) ==> translates(old(self).func_view(), e2),
    {
        match self.inner.produce() {
            Ok(item) => Ok(item),
            Err(e) => {
                let e2 = (self.f)(e);
                proof {
                    assert(translates(old(self).func_view(), e2)) by {
                        assert(call_ensures(old(self).func_view(), (e,), e2));
                    }
                }
                Err(e2)
            },
        }
    }

    fn slurp(&mut self) -> (r: Result<(), E2>)
        ensures
            r matches Err(e2) ==> translates(old(self).func_view(), e2),
    {
        match self.inner.slurp() {
            Ok(()) => Ok(()),
            Err(e) => {
                let e2 = (self.f)(e);
                proof {
                    assert(translates(old(self).func_view(), e2)) by {
                        assert(call_ensures(old(self).func_view(), (e,), e2));
                    }
                }
                Err(e2)
            },
        }
    }
}

impl<T: Copy, E, E2, I: BulkProducer<T, E>, F: Fn(E) -> E2> BulkProducer<T, E2> for MapErr<
    I,
    F,
    E,
> {
    closed spec fn slots(&self) -> Seq<T> {
        self.inner.slots()
    }

    fn producer_slots(&mut self) -> (r: Result<Vec<T>, E2>)
        ensures
            r matches Err(e2) ==> translates(old(self).func_view(), e2),
    {
        match self.inner.producer_slots() {
            Ok(v) => Ok(v),
            Err(e) => {
                let e2 = (self.f)(e);
                proof {
                    assert(translates(old(self).func_view(), e2)) by {
                        assert(call_ensures(old(self).func_view(), (e,), e2));
                    }
                }
                Err(e2)
            },
        }
    }

    fn did_produce(&mut self, amount: usize) {
        self.inner.did_produce(amount);
    }

    fn bulk_produce(&mut self, buffer_len: usize) -> (r: Result<Vec<T>, E2>)
        ensures
            r matches Err(e2) ==> translates(old(self).func_view(), e2),
    {
        match self.inner.bulk_produce(buffer_len) {
            Ok(v) => Ok(v),
            Err(e) => {
                let e2 = (self.f)(e);
                proof {
                    assert(translates(old(self).func_view(), e2)) by {
                        assert(call_ensures(old(self).func_view(), (e,), e2));
                    }
                }
                Err(e2)
            },
        }
    }
}

/// Error translation leaves the producer's behaviour untouched: the wrapper
/// is well-formed whenever the inner producer is, and its record of emitted
/// items is the inner one's.
pub proof fn lemma_map_err_transparent<T, E, E2, I: Producer<T, E>, F: Fn(E) -> E2>(
    m: &MapErr<I, F, E>,
)
    requires
        m.inner_view().wf(),
        forall|e: E| call_requires(m.func_view(), (e,)),
    ensures
        m.wf(),
        m.produced() == m.inner_view().produced(),
{
    assert forall|e: E| call_requires(m.f, (e,)) by {
        assert(call_requires(m.func_view(), (e,)));
    }
}

} // verus!
