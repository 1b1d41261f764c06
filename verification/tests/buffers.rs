use rw::con_::{BulkConsumer, Consumer};
use rw::pro::{BulkProducer, Producer};
use rw::ringbuffer::elastic::ElasticBuffer;
use rw::ringbuffer::static_::StaticBuffer;

#[test]
fn static_fill_drain_refill() {
    // Static buffer, capacity 4: four writes succeed, the fifth is
    // unavailable; one read frees a slot and the write then succeeds.
    let mut b = StaticBuffer::<u32, 4>::new();
    assert_eq!(b.consume(1), Ok(()));
    assert_eq!(b.consume(2), Ok(()));
    assert_eq!(b.consume(3), Ok(()));
    assert_eq!(b.consume(4), Ok(()));
    assert_eq!(b.consume(5), Err(()));
    assert_eq!(b.produce(), Ok(1));
    assert_eq!(b.consume(5), Ok(()));
}

#[test]
fn static_fifo_order() {
    let mut b = StaticBuffer::<u32, 3>::new();
    assert_eq!(b.consume(10), Ok(()));
    assert_eq!(b.consume(20), Ok(()));
    assert_eq!(b.produce(), Ok(10));
    assert_eq!(b.consume(30), Ok(()));
    assert_eq!(b.consume(40), Ok(()));
    assert_eq!(b.produce(), Ok(20));
    assert_eq!(b.produce(), Ok(30));
    assert_eq!(b.produce(), Ok(40));
    assert_eq!(b.produce(), Err(()));
}

#[test]
fn static_bulk_roundtrip_with_wrap() {
    // Mix single and bulk writes; the reads give back exactly the writes.
    let mut b = StaticBuffer::<u8, 4>::new();
    let n = b.bulk_consume(&[1, 2, 3]).unwrap();
    assert_eq!(n, 3);
    assert_eq!(b.produce(), Ok(1));
    assert_eq!(b.produce(), Ok(2));
    // the next write wraps around the backing storage
    let n = b.bulk_consume(&[4, 5, 6]).unwrap();
    assert!(n >= 1);
    let mut got = Vec::new();
    loop {
        match b.produce() {
            Ok(x) => got.push(x),
            Err(()) => break,
        }
    }
    let mut expect = vec![3u8];
    expect.extend_from_slice(&[4, 5, 6][..n]);
    assert_eq!(got, expect);
}

#[test]
fn static_producer_slots_single_run() {
    let mut b = StaticBuffer::<u8, 4>::new();
    assert_eq!(b.bulk_consume(&[7, 8, 9, 10]), Ok(4));
    assert_eq!(b.produce(), Ok(7));
    assert_eq!(b.produce(), Ok(8));
    assert_eq!(b.bulk_consume(&[11]), Ok(1));
    // contents are 9, 10, 11 with 11 wrapped: only the first run shows
    let v = b.producer_slots().unwrap();
    assert_eq!(v, vec![9, 10]);
    b.did_produce(2);
    assert_eq!(b.producer_slots().unwrap(), vec![11]);
}

#[test]
fn static_consumer_slots_reports_window() {
    let mut b = StaticBuffer::<u8, 4>::new();
    assert_eq!(b.consumer_slots(), Ok(4));
    assert_eq!(b.bulk_consume(&[1, 2, 3, 4]), Ok(4));
    assert_eq!(b.consumer_slots(), Err(()));
    assert_eq!(b.produce(), Ok(1));
    assert_eq!(b.consumer_slots(), Ok(1));
}

#[test]
fn static_from_array_starts_empty() {
    let mut b = StaticBuffer::<u8, 3>::from_array([9, 9, 9]);
    assert_eq!(b.produce(), Err(()));
    assert_eq!(b.consume(1), Ok(()));
    assert_eq!(b.produce(), Ok(1));
}

#[test]
fn static_flush_and_slurp_are_noops() {
    let mut b = StaticBuffer::<u8, 2>::new();
    assert_eq!(b.consume(5), Ok(()));
    assert_eq!(Consumer::flush(&mut b), Ok(()));
    assert_eq!(Producer::slurp(&mut b), Ok(()));
    assert_eq!(b.produce(), Ok(5));
}

#[test]
fn elastic_grows_to_cap_then_rejects() {
    // Hard cap 16, starting empty: sixteen single writes succeed, the
    // seventeenth is unavailable and never panics.
    let mut b = ElasticBuffer::<u8>::new(16);
    for i in 0..16u8 {
        assert_eq!(b.consume(i), Ok(()), "write {} should succeed", i);
    }
    assert_eq!(b.consume(99), Err(()));
    assert_eq!(b.produce(), Ok(0));
}

#[test]
fn elastic_fifo_across_growth() {
    let mut b = ElasticBuffer::<u32>::new(64);
    for i in 0..40u32 {
        assert_eq!(b.consume(i), Ok(()));
    }
    for i in 0..40u32 {
        assert_eq!(b.produce(), Ok(i));
    }
    assert_eq!(b.produce(), Err(()));
}

#[test]
fn elastic_shrinks_and_keeps_contents() {
    let mut b = ElasticBuffer::<u32>::new(1024);
    for i in 0..100u32 {
        assert_eq!(b.consume(i), Ok(()));
    }
    // drain most of it: shrinking must never lose or reorder items
    for i in 0..90u32 {
        assert_eq!(b.produce(), Ok(i));
    }
    for i in 90..100u32 {
        assert_eq!(b.consume(i + 100), Ok(()));
        assert_eq!(b.produce(), Ok(i));
    }
    for i in 190..200u32 {
        assert_eq!(b.produce(), Ok(i));
    }
    assert_eq!(b.produce(), Err(()));
}

#[test]
fn elastic_bulk_ops() {
    let mut b = ElasticBuffer::<u8>::new(8);
    let n = b.bulk_consume(&[1, 2, 3, 4, 5]).unwrap();
    assert!(n >= 1);
    let v = b.producer_slots().unwrap();
    assert_eq!(v[..], [1, 2, 3, 4, 5][..v.len()]);
    b.did_produce(v.len());
    let w = b.bulk_produce(16);
    if n > v.len() {
        let w = w.unwrap();
        assert_eq!(w[..], [1, 2, 3, 4, 5][v.len()..v.len() + w.len()]);
    }
}

#[test]
fn elastic_with_capacity_and_from_vec() {
    let mut b = ElasticBuffer::<u8>::with_capacity(4, 100);
    assert_eq!(b.consume(1), Ok(()));
    assert_eq!(b.consume(2), Ok(()));
    assert_eq!(b.consume(3), Ok(()));
    assert_eq!(b.consume(4), Ok(()));
    assert_eq!(b.consume(5), Err(()));
    let mut c = ElasticBuffer::<u8>::from_vec(8, vec![7, 7, 7]);
    assert_eq!(c.produce(), Err(()));
    assert_eq!(c.consume(1), Ok(()));
    assert_eq!(c.produce(), Ok(1));
}
