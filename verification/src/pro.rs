use vstd::prelude::*;

pub mod cursor;
pub mod map_err;
pub mod scramble;

verus! {

/// A `Producer` yields items one by one.
///
/// The model is the sequence of items the producer has emitted so far:
/// every successful call appends exactly what it returned, and a failed
/// call reports the error without having emitted anything.
pub trait Producer<T, E> {
    /// Validity of the producer's internal state; constructors establish it
    /// and every method preserves it.
    spec fn wf(&self) -> bool;

    /// All items this producer has emitted so far, in order.
    spec fn produced(&self) -> Seq<T>;

    /// Produces a single item.
    fn produce(&mut self) -> (r: Result<T, E>)
        requires
            old(self).wf(),
        ensures
            final(self).wf(),
            r matches Ok(item) ==> final(self).produced() == old(self).produced().push(item),
            r is Err ==> final(self).produced() == old(self).produced(),
    ;

    /// An advisory prefetch hint: the producer may move data from its source
    /// into an internal buffer. A no-op is always a valid implementation.
    fn slurp(&mut self) -> (r: Result<(), E>)
        requires
            old(self).wf(),
        ensures
            final(self).wf(),
            final(self).produced() == old(self).produced(),
    ;
}

/// A `BulkProducer` can yield multiple items at a time.
///
/// It exposes a readable window (a contiguous, non-empty run of available
/// items) without emitting them; `did_produce` then commits a non-empty
/// prefix of that window as emitted.
pub trait BulkProducer<T: Copy, E>: Producer<T, E> {
    /// Contents of the readable window this producer currently offers.
    spec fn slots(&self) -> Seq<T>;

    /// Makes a non-empty readable window available and returns a copy of it,
    /// without emitting anything.
    fn producer_slots(&mut self) -> (r: Result<Vec<T>, E>)
        requires
            old(self).wf(),
        ensures
            final(self).wf(),
            final(self).produced() == old(self).produced(),
            r matches Ok(v) ==> v@ == final(self).slots() && v@.len() >= 1,
    ;

    /// Commits `amount` items from the front of the current window as
    /// emitted. `amount` must not exceed the window's length.
    fn did_produce(&mut self, amount: usize)
        requires
            old(self).wf(),
            1 <= amount <= old(self).slots().len(),
        ensures
            final(self).wf(),
            final(self).produced() == old(self).produced()
                + old(self).slots().take(amount as int),
    ;

    /// Emits a non-empty batch of at most `buffer_len` items and returns it.
    fn bulk_produce(&mut self, buffer_len: usize) -> (r: Result<Vec<T>, E>)
        requires
            old(self).wf(),
            buffer_len >= 1,
        ensures
            final(self).wf(),
            r matches Ok(v) ==> 1 <= v@.len() <= buffer_len
                && final(self).produced() == old(self).produced() + v@,
            r is Err ==> final(self).produced() == old(self).produced(),
    ;
}

} // verus!
