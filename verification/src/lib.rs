//! A synchronous data-movement contract between pull-based producers and
//! push-based consumers of items, with a bulk-transfer extension, the ring
//! buffers that implement it as in-memory storage, and a scripted
//! "scramble" harness that exercises every legal calling pattern of the
//! contract to check behavioural equivalence. The contract is stated as
//! verified trait specifications: each endpoint models the items it has
//! accepted or emitted, and every implementation in this crate is proved
//! against that model.

use vstd::prelude::*;

pub mod con_;
pub mod pro;
pub mod ringbuffer;
pub mod sync;

use crate::con_::{BulkConsumer, Consumer};
use crate::pro::{BulkProducer, Producer};

verus! {

/// An error type for endpoints that can never fail: every fallible result
/// whose error is `Never` is guaranteed `Ok` by its contract.
#[derive(Debug, PartialEq, Eq)]
pub struct Never;

/// Pipes items from the producer into the consumer, one at a time, until
/// either side reports an error (returned as `Some`) or the step budget
/// `fuel` runs out (`None`). Does neither flush nor slurp. The consumer
/// accepts everything the producer emits, except that the item emitted last
/// is lost when it is the consumer that failed.
#[verifier::loop_isolation(false)]
pub fn pipe<T, E, P: Producer<T, E>, C: Consumer<T, E>>(p: &mut P, c: &mut C, fuel: usize) -> (r:
    Option<E>)
    requires
        old(p).wf(),
        old(c).wf(),
    ensures
        final(p).wf(),
        final(c).wf(),
        old(p).produced().is_prefix_of(final(p).produced()),
        ({
            let dp = final(p).produced().skip(old(p).produced().len() as int);
            ||| final(c).consumed() == old(c).consumed() + dp
            ||| (r is Some && dp.len() >= 1 && final(c).consumed() == old(c).consumed()
                + dp.drop_last())
        }),
        r is None ==> final(c).consumed() == old(c).consumed() + final(p).produced().skip(
            old(p).produced().len() as int,
        ),
        r is None ==> final(p).produced().len() == old(p).produced().len() + fuel,
{
    let ghost p0 = *p;
    let ghost c0 = *c;
    let mut i: usize = 0;
    while i < fuel
        invariant
            p.wf(),
            c.wf(),
            i <= fuel,
            p0.produced().is_prefix_of(p.produced()),
            p.produced().len() == p0.produced().len() + i,
            c.consumed() == c0.consumed() + p.produced().skip(p0.produced().len() as int),
        decreases fuel - i,
    {
        let ghost dp = p.produced().skip(p0.produced().len() as int);
        match p.produce() {
            Ok(item) => {
                proof {
                    assert(p.produced().skip(p0.produced().len() as int) =~= dp.push(item));
                }
                match c.consume(item) {
                    Ok(()) => {
                        proof {
                            assert(c.consumed() =~= c0.consumed() + dp.push(item));
                        }
                    },
                    Err(e) => {
                        proof {
                            assert(dp.push(item).drop_last() =~= dp);
                        }
                        return Some(e);
                    },
                }
            },
            Err(e) => {
                return Some(e);
            },
        }
        i = i + 1;
    }
    None
}

/// Repeatedly sizes a batch to the consumer's writable window, has the
/// producer emit it and hands it to the consumer, until either side reports
/// an error (`Some`) or the step budget runs out (`None`). Does neither
/// flush nor slurp. The consumer accepts a prefix of what the producer
/// emitted; the two match exactly unless the consumer failed on the final
/// batch.
#[verifier::loop_isolation(false)]
pub fn bulk_produce_all<T: Copy, E, P: BulkProducer<T, E>, C: BulkConsumer<T, E>>(
    p: &mut P,
    c: &mut C,
    fuel: usize,
) -> (r: Option<E>)
    requires
        old(p).wf(),
        old(c).wf(),
    ensures
        final(p).wf(),
        final(c).wf(),
        old(p).produced().is_prefix_of(final(p).produced()),
        old(c).consumed().is_prefix_of(final(c).consumed()),
        ({
            let dp = final(p).produced().skip(old(p).produced().len() as int);
            let dc = final(c).consumed().skip(old(c).consumed().len() as int);
            dc.is_prefix_of(dp)
        }),
        r is None ==> final(c).consumed() == old(c).consumed() + final(p).produced().skip(
            old(p).produced().len() as int,
        ),
        r is None ==> final(p).produced().len() >= old(p).produced().len() + fuel,
{
    let ghost p0 = *p;
    let ghost c0 = *c;
    let mut i: usize = 0;
    while i < fuel
        invariant
            p.wf(),
            c.wf(),
            i <= fuel,
            p0.produced().is_prefix_of(p.produced()),
            p.produced().len() >= p0.produced().len() + i,
            c0.consumed().is_prefix_of(c.consumed()),
            c.consumed() == c0.consumed() + p.produced().skip(p0.produced().len() as int),
        decreases fuel - i,
    {
        let ghost dp = p.produced().skip(p0.produced().len() as int);
        let n = match c.consumer_slots() {
            Ok(n) => n,
            Err(e) => {
                return Some(e);
            },
        };
        let v = match p.bulk_produce(n) {
            Ok(v) => v,
            Err(e) => {
                return Some(e);
            },
        };
        proof {
            assert(p.produced().skip(p0.produced().len() as int) =~= dp + v@);
            assert((c.consumed().skip(c0.consumed().len() as int)).is_prefix_of(dp + v@));
        }
        match c.bulk_consume(v.as_slice()) {
            Ok(m) => {
                proof {
                    assert(v@.take(m as int) =~= v@);
                    assert(c.consumed() =~= c0.consumed() + (dp + v@));
                }
            },
            Err(e) => {
                return Some(e);
            },
        }
        i = i + 1;
    }
    None
}

/// Repeatedly takes the producer's readable window, hands it to the
/// consumer and commits exactly what the consumer accepted, until either
/// side reports an error (`Some`) or the step budget runs out (`None`).
/// Does neither flush nor slurp. The consumer accepts exactly what the
/// producer emitted, in order.
#[verifier::loop_isolation(false)]
pub fn bulk_consume_all<T: Copy, E, P: BulkProducer<T, E>, C: BulkConsumer<T, E>>(
    p: &mut P,
    c: &mut C,
    fuel: usize,
) -> (r: Option<E>)
    requires
        old(p).wf(),
        old(c).wf(),
    ensures
        final(p).wf(),
        final(c).wf(),
        old(p).produced().is_prefix_of(final(p).produced()),
        final(c).consumed() == old(c).consumed() + final(p).produced().skip(
            old(p).produced().len() as int,
        ),
        r is None ==> final(p).produced().len() >= old(p).produced().len() + fuel,
{
    let ghost p0 = *p;
    let ghost c0 = *c;
    let mut i: usize = 0;
    while i < fuel
        invariant
            p.wf(),
            c.wf(),
            i <= fuel,
            p0.produced().is_prefix_of(p.produced()),
            p.produced().len() >= p0.produced().len() + i,
            c.consumed() == c0.consumed() + p.produced().skip(p0.produced().len() as int),
        decreases fuel - i,
    {
        let ghost dp = p.produced().skip(p0.produced().len() as int);
        let v = match p.producer_slots() {
            Ok(v) => v,
            Err(e) => {
                return Some(e);
            },
        };
        let m = match c.bulk_consume(v.as_slice()) {
            Ok(m) => m,
            Err(e) => {
                return Some(e);
            },
        };
        p.did_produce(m);
        proof {
            assert(p.produced().skip(p0.produced().len() as int) =~= dp + v@.take(m as int));
            assert(c.consumed() =~= c0.consumed() + (dp + v@.take(m as int)));
        }
        i = i + 1;
    }
    None
}

} // verus!
