use rw::con_::{BulkConsumer, Consumer};
use rw::ringbuffer::elastic::ElasticBuffer;
use rw::ringbuffer::static_::StaticBuffer;
use rw::pro::{BulkProducer, Producer};
use rw::sync::into_vec::IntoVec;
use rw::sync::repeat::Repeat;
use rw::sync::trivial::{TrivialReadable, TrivialWritable};
use rw::{bulk_consume_all, bulk_produce_all, pipe};

#[test]
fn pipe_five_into_ten() {
    // A five-item source piped into a ten-slot sink writes exactly those
    // five items at the sink's front and returns the source's exhaustion
    // error.
    let mut src = rw::pro::cursor::cursor(vec![1u8, 2, 3, 4, 5]);
    let mut dst = rw::con_::cursor::cursor(vec![0u8; 10]);
    let r = pipe(&mut src, &mut dst, 1000);
    assert_eq!(r, Some(()));
    let out = dst.into_inner();
    assert_eq!(&out[..5], &[1, 2, 3, 4, 5]);
    assert_eq!(&out[5..], &[0, 0, 0, 0, 0]);
}

#[test]
fn pipe_stops_on_full_sink() {
    let mut src = rw::pro::cursor::cursor(vec![1u8, 2, 3, 4, 5]);
    let mut dst = rw::con_::cursor::cursor(vec![0u8; 3]);
    let r = pipe(&mut src, &mut dst, 1000);
    assert_eq!(r, Some(()));
    assert_eq!(dst.into_inner(), vec![1, 2, 3]);
}

#[test]
fn pipe_runs_out_of_fuel() {
    let mut src = rw::pro::cursor::cursor(vec![1u8, 2, 3, 4, 5]);
    let mut dst = rw::con_::cursor::cursor(vec![0u8; 10]);
    let r = pipe(&mut src, &mut dst, 2);
    assert_eq!(r, None);
    assert_eq!(&dst.into_inner()[..2], &[1, 2]);
}

#[test]
fn bulk_produce_all_transfers_everything() {
    let mut src = rw::pro::cursor::cursor(vec![1u8, 2, 3, 4, 5, 6, 7]);
    let mut dst = rw::con_::cursor::cursor(vec![0u8; 7]);
    let r = bulk_produce_all(&mut src, &mut dst, 1000);
    assert_eq!(r, Some(()));
    assert_eq!(dst.into_inner(), vec![1, 2, 3, 4, 5, 6, 7]);
}

#[test]
fn bulk_consume_all_transfers_everything() {
    let mut src = rw::pro::cursor::cursor(vec![9u8, 8, 7, 6]);
    let mut dst = rw::con_::cursor::cursor(vec![0u8; 6]);
    let r = bulk_consume_all(&mut src, &mut dst, 1000);
    assert_eq!(r, Some(()));
    let out = dst.into_inner();
    assert_eq!(&out[..4], &[9, 8, 7, 6]);
}

#[test]
fn producer_cursor_produces_and_errors_at_end() {
    let mut c = rw::pro::cursor::cursor(vec![4u32, 5]);
    assert_eq!(c.produce(), Ok(4));
    assert_eq!(c.produce(), Ok(5));
    assert_eq!(c.produce(), Err(()));
    assert_eq!(c.slurp(), Ok(()));
}

#[test]
fn producer_cursor_bulk() {
    let mut c = rw::pro::cursor::cursor(vec![1u8, 2, 3, 4]);
    assert_eq!(c.producer_slots(), Ok(vec![1, 2, 3, 4]));
    c.did_produce(2);
    assert_eq!(c.bulk_produce(10), Ok(vec![3, 4]));
    assert_eq!(c.bulk_produce(10), Err(()));
    assert_eq!(c.as_ref(), &vec![1, 2, 3, 4]);
}

#[test]
fn consumer_cursor_overwrites_front() {
    let mut c = rw::con_::cursor::cursor(vec![9u8, 9, 9, 9]);
    assert_eq!(c.consume(1), Ok(()));
    assert_eq!(c.bulk_consume(&[2, 3]), Ok(2));
    assert_eq!(c.as_ref(), &vec![1, 2, 3, 9]);
    assert_eq!(c.consumer_slots(), Ok(1));
    assert_eq!(c.consume(4), Ok(()));
    assert_eq!(c.consume(5), Err(()));
    assert_eq!(c.into_inner(), vec![1, 2, 3, 4]);
}

#[test]
fn into_vec_collects() {
    let mut v = IntoVec::<u8>::new();
    assert_eq!(v.consume(1), Ok(()));
    assert_eq!(v.bulk_consume(&[2, 3, 4]), Ok(3));
    assert_eq!(Consumer::flush(&mut v), Ok(()));
    assert!(v.consumer_slots().is_ok());
    assert_eq!(v.as_ref(), &vec![1, 2, 3, 4]);
    assert_eq!(v.into_vec(), vec![1, 2, 3, 4]);
}

#[test]
fn repeat_cycles_forever() {
    let mut r = Repeat::new(vec![1u8, 2, 3]);
    assert_eq!(r.produce(), Ok(1));
    assert_eq!(r.produce(), Ok(2));
    assert_eq!(r.produce(), Ok(3));
    assert_eq!(r.produce(), Ok(1));
    assert_eq!(r.producer_slots(), Ok(vec![2, 3]));
    r.did_produce(2);
    assert_eq!(r.produce(), Ok(1));
    let b = r.bulk_produce(5).unwrap();
    assert_eq!(b, vec![2, 3]);
}

#[test]
fn trivial_writable_swallows() {
    let mut w = TrivialWritable::<u8>::new();
    assert_eq!(w.consume(1), Ok(()));
    assert_eq!(w.bulk_consume(&[2, 3, 4]), Ok(3));
    assert_eq!(w.consumer_slots(), Ok(1));
    assert_eq!(Consumer::flush(&mut w), Ok(()));
}

#[test]
fn trivial_readable_repeats() {
    let mut r = TrivialReadable::new(42u8);
    assert_eq!(r.produce(), Ok(42));
    assert_eq!(r.producer_slots(), Ok(vec![42]));
    r.did_produce(1);
    assert_eq!(r.bulk_produce(4), Ok(vec![42, 42, 42, 42]));
    assert_eq!(r.slurp(), Ok(()));
}

#[test]
fn repeat_into_cursor_via_pipe() {
    // An endless source into a bounded sink: the sink fills completely.
    let mut src = rw::pro::map_err::map_err(Repeat::new(vec![7u8, 8]), |_e: rw::Never| ());
    let mut dst = rw::con_::cursor::cursor(vec![0u8; 5]);
    let r = pipe(&mut src, &mut dst, 1000);
    assert_eq!(r, Some(()));
    assert_eq!(dst.into_inner(), vec![7, 8, 7, 8, 7]);
}

#[test]
fn map_err_translates_consumer_errors() {
    let inner = rw::con_::cursor::cursor(vec![0u8; 2]);
    let mut m = rw::con_::map_err::map_err(inner, |_e: ()| 7u8);
    assert_eq!(m.consume(1), Ok(()));
    assert_eq!(m.bulk_consume(&[2]), Ok(1));
    assert_eq!(m.consume(3), Err(7u8));
    assert_eq!(Consumer::flush(&mut m), Ok(()));
    assert_eq!(m.into_inner().into_inner(), vec![1, 2]);
}

#[test]
fn map_err_translates_producer_errors() {
    let inner = rw::pro::cursor::cursor(vec![5u8]);
    let mut m = rw::pro::map_err::map_err(inner, |_e: ()| "done");
    assert_eq!(m.produce(), Ok(5));
    assert_eq!(m.produce(), Err("done"));
    assert_eq!(m.slurp(), Ok(()));
    assert_eq!(m.as_ref().as_ref(), &vec![5u8]);
}

#[test]
fn pipe_empty_source() {
    let mut src = rw::pro::cursor::cursor(Vec::<u8>::new());
    let mut dst = rw::con_::cursor::cursor(vec![0u8; 4]);
    assert_eq!(pipe(&mut src, &mut dst, 100), Some(()));
    assert_eq!(dst.into_inner(), vec![0, 0, 0, 0]);
}

#[test]
fn zero_capacity_static_buffer_rejects_everything() {
    let mut b = StaticBuffer::<u8, 0>::new();
    assert_eq!(b.consume(1), Err(()));
    assert_eq!(b.produce(), Err(()));
}

#[test]
fn elastic_max_size_one() {
    let mut b = ElasticBuffer::<u8>::new(1);
    assert_eq!(b.consume(3), Ok(()));
    assert_eq!(b.consume(4), Err(()));
    assert_eq!(b.produce(), Ok(3));
    assert_eq!(b.produce(), Err(()));
    assert_eq!(b.consume(5), Ok(()));
    assert_eq!(b.produce(), Ok(5));
}
