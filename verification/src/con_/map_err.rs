use core::marker::PhantomData;

use vstd::prelude::*;

use crate::con_::{BulkConsumer, Consumer};

verus! {

/// Wraps a consumer so that its errors pass through the given pure
/// function; everything else is left untouched. The function must accept
/// every error value.
pub fn map_err<T, E, E2, I: Consumer<T, E>, F: Fn(E) -> E2>(inner: I, f: F) -> (r: MapErr<
    I,
    F,
    E,
>)
    requires
        inner.wf(),
        forall|e: E| call_requires(f, (e,)),
    ensures
        r.wf(),
        r.consumed() == inner.consumed(),
        r.inner_view() == inner,
        r.func_view() == f,
{
    let r = MapErr { inner, f, marker: PhantomData };
    proof {
        assert forall|e: E| call_requires(r.func_view(), (e,)) by {
            assert(call_requires(f, (e,)));
        }
    }
    r
}

/// Whether `e2` is a value the error-translating function can return for
/// some inner error.
pub open spec fn translates<E, E2, F: Fn(E) -> E2>(f: F, e2: E2) -> bool {
    exists|e: E| call_ensures(f, (e,), e2)
}

/// A consumer that behaves exactly like its inner consumer, with errors
/// translated by a caller-supplied function.
pub struct MapErr<I, F, E> {
    inner: I,
    f: F,
    marker: PhantomData<E>,
}

impl<I, F, E> MapErr<I, F, E> {
    /// The wrapped consumer.
    pub closed spec fn inner_view(&self) -> I {
        self.inner
    }

    /// The error-translating function.
    pub closed spec fn func_view(&self) -> F {
        self.f
    }

    pub fn into_inner(self) -> (r: I)
        ensures
            r == self.inner_view(),
    {
        self.inner
    }

    pub fn as_ref(&self) -> (r: &I)
        ensures
            *r == self.inner_view(),
    {
        &self.inner
    }

    pub fn as_mut(&mut self) -> (r: &mut I)
        ensures
            *r == old(self).inner_view(),
            final(self).inner_view() == *final(r),
            final(self).func_view() == old(self).func_view(),
    {
        &mut self.inner
    }
}

impl<T, E, E2, I: Consumer<T, E>, F: Fn(E) -> E2> Consumer<T, E2> for MapErr<I, F, E> {
    closed spec fn wf(&self) -> bool {
        self.inner.wf() && forall|e: E| call_requires(self.f, (e,))
    }

    closed spec fn consumed(&self) -> Seq<T> {
        self.inner.consumed()
    }

    closed spec fn flushed(&self) -> bool {
        self.inner.flushed()
    }

    fn consume(&mut self, item: T) -> (r: Result<(), E2>)
        ensures
            r matches Err(e2) ==> translates(old(self).func_view(), e2),
    {
        match self.inner.consume(item) {
            Ok(()) => Ok(()),
            Err(e) => {
                let e2 = (self.f)(e);
                proof {
                    assert(translates(old(self).func_view(), e2)) by {
                        assert(call_ensures(old(self).func_view(), (e,), e2));
                    }
                }
                Err(e2)
            },
        }
    }

    fn flush(&mut self) -> (r: Result<(), E2>)
        ensures
            r matches Err(e2) ==> translates(old(self).func_view(), e2),
    {
        match self.inner.flush() {
            Ok(()) => Ok(()),
            Err(e) => {
                let e2 = (self.f)(e);
                proof {
                    assert(translates(old(self).func_view(), e2)) by {
                        assert(call_ensures(old(self).func_view(), (e,), e2));
                    }
                }
                Err(e2)
            },
        }
    }
}

impl<T: Copy, E, E2, I: BulkConsumer<T, E>, F: Fn(E) -> E2> BulkConsumer<T, E2> for MapErr<
    I,
    F,
    E,
> {
    closed spec fn space(&self) -> nat {
        self.inner.space()
    }

    fn consumer_slots(&mut self) -> (r: Result<usize, E2>)
        ensures
            r matches Err(e2) ==> translates(old(self).func_view(), e2),
    {
        match self.inner.consumer_slots() {
            Ok(n) => Ok(n),
            Err(e) => {
                let e2 = (self.f)(e);
                proof {
                    assert(translates(old(self).func_view(), e2)) by {
                        assert(call_ensures(old(self).func_view(), (e,), e2));
                    }
                }
                Err(e2)
            },
        }
    }

    fn bulk_consume(&mut self, data: &[T]) -> (r: Result<usize, E2>)
        ensures
            r matches Err(e2) ==> translates(old(self).func_view(), e2),
    {
        match self.inner.bulk_consume(data) {
            Ok(n) => Ok(n),
            Err(e) => {
                let e2 = (self.f)(e);
                proof {
                    assert(translates(old(self).func_view(), e2)) by {
                        assert(call_ensures(old(self).func_view(), (e,), e2));
                    }
                }
                Err(e2)
            },
        }
    }
}

/// Error translation leaves the consumer's behaviour untouched: the wrapper
/// is well-formed whenever the inner consumer is, and its record of
/// accepted items is the inner one's.
pub proof fn lemma_map_err_transparent<T, E, E2, I: Consumer<T, E>, F: Fn(E) -> E2>(
    m: &MapErr<I, F, E>,
)
    requires
        m.inner_view().wf(),
        forall|e: E| call_requires(m.func_view(), (e,)),
    ensures
        m.wf(),
        m.consumed() == m.inner_view().consumed(),
{
    assert forall|e: E| call_requires(m.f, (e,)) by {
        assert(call_requires(m.func_view(), (e,)));
    }
}

} // verus!
