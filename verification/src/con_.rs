use vstd::prelude::*;

pub mod cursor;
pub mod map_err;
pub mod scramble;

verus! {

/// A `Consumer` accepts items one by one.
///
/// The model is the sequence of items the consumer has accepted so far:
/// every successful call appends exactly what it was given, and a failed
/// call reports the error without having taken effect.
pub trait Consumer<T, E> {
    /// Validity of the consumer's internal state; constructors establish it
    /// and every method preserves it.
    spec fn wf(&self) -> bool;

    /// All items this consumer has accepted so far, in order.
    spec fn consumed(&self) -> Seq<T>;

    /// Whether everything accepted has been fully processed: nothing sits
    /// in an internal buffer on its way to the final destination.
    spec fn flushed(&self) -> bool;

    /// Accepts a single item.
    fn consume(&mut self, item: T) -> (r: Result<(), E>)
        requires
            old(self).wf(),
        ensures
            final(self).wf(),
            r is Ok ==> final(self).consumed() == old(self).consumed().push(item),
            r is Err ==> final(self).consumed() == old(self).consumed(),
    ;

    /// Triggers immediate processing of all internally buffered data.
    /// A no-op is always a valid implementation of the call itself; an
    /// implementation that buffers internally must drain on success.
    fn flush(&mut self) -> (r: Result<(), E>)
        requires
            old(self).wf(),
        ensures
            final(self).wf(),
            final(self).consumed() == old(self).consumed(),
            r is Ok ==> final(self).flushed(),
    ;
}

/// A `BulkConsumer` can accept multiple items at a time.
///
/// It offers a writable window (a contiguous, non-empty run of free cells);
/// `bulk_consume` accepts a non-empty prefix of the given data, and accepts
/// all of it whenever the data fits into the window last offered.
pub trait BulkConsumer<T: Copy, E>: Consumer<T, E> {
    /// Length of the writable window this consumer currently offers.
    spec fn space(&self) -> nat;

    /// Makes a non-empty writable window available and returns its length.
    fn consumer_slots(&mut self) -> (r: Result<usize, E>)
        requires
            old(self).wf(),
        ensures
            final(self).wf(),
            final(self).consumed() == old(self).consumed(),
            r matches Ok(n) ==> n as nat == final(self).space() && n >= 1,
    ;

    /// Accepts a non-empty prefix of `data` and returns how many items were
    /// taken. Everything is taken when `data` fits the current window.
    fn bulk_consume(&mut self, data: &[T]) -> (r: Result<usize, E>)
        requires
            old(self).wf(),
            data@.len() >= 1,
        ensures
            final(self).wf(),
            r matches Ok(n) ==> {
                &&& 1 <= n <= data@.len()
                &&& final(self).consumed() == old(self).consumed() + data@.take(n as int)
                &&& data@.len() <= old(self).space() ==> n == data@.len()
            },
            r is Err ==> final(self).consumed() == old(self).consumed(),
    ;
}

} // verus!
