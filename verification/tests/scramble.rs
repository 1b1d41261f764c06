use rw::bulk_consume_all;
use rw::con_::scramble::{ConsumeOperation, ConsumeOperations, ScrambleConsumer};
use rw::con_::{BulkConsumer, Consumer};
use rw::pro::scramble::{ProduceOperation, ProduceOperations, ScrambleProducer};
use rw::pro::{BulkProducer, Producer};

fn consume_script(ops: Vec<ConsumeOperation>) -> ConsumeOperations {
    ConsumeOperations::new(ops).unwrap()
}

fn produce_script(ops: Vec<ProduceOperation>) -> ProduceOperations {
    ProduceOperations::new(ops).unwrap()
}

#[test]
fn consume_script_rejects_flush_only() {
    assert!(ConsumeOperations::new(vec![ConsumeOperation::Flush]).is_none());
    assert!(ConsumeOperations::new(vec![
        ConsumeOperation::Flush,
        ConsumeOperation::Flush
    ])
    .is_none());
    assert!(ConsumeOperations::new(vec![]).is_none());
    assert!(ConsumeOperations::new(vec![
        ConsumeOperation::Flush,
        ConsumeOperation::Consume
    ])
    .is_some());
}

#[test]
fn consume_script_rejects_zero_clamp() {
    assert!(ConsumeOperations::new(vec![ConsumeOperation::BulkConsume(0)]).is_none());
    assert!(ConsumeOperations::new(vec![ConsumeOperation::ConsumerSlots(0)]).is_none());
    assert!(ConsumeOperations::new(vec![ConsumeOperation::BulkConsume(2)]).is_some());
}

#[test]
fn produce_script_rejects_slurp_only() {
    assert!(ProduceOperations::new(vec![ProduceOperation::Slurp]).is_none());
    assert!(ProduceOperations::new(vec![]).is_none());
    assert!(ProduceOperations::new(vec![ProduceOperation::ProducerSlots(0)]).is_none());
    assert!(ProduceOperations::new(vec![
        ProduceOperation::Slurp,
        ProduceOperation::Produce
    ])
    .is_some());
}

#[test]
fn scramble_consumer_scripted_scenario() {
    // Script [BulkConsume(2), Consume, Flush], staging capacity 3, fed
    // 9 8 7 6 5: after a flush the sink holds exactly those items.
    let sink = rw::con_::cursor::cursor(vec![0u8; 8]);
    let ops = consume_script(vec![
        ConsumeOperation::BulkConsume(2),
        ConsumeOperation::Consume,
        ConsumeOperation::Flush,
    ]);
    let mut s = ScrambleConsumer::new(sink, ops, 3);
    for item in [9u8, 8, 7, 6, 5] {
        assert_eq!(s.consume(item), Ok(()));
    }
    assert_eq!(Consumer::flush(&mut s), Ok(()));
    let out = s.into_inner().into_inner();
    assert_eq!(&out[..5], &[9, 8, 7, 6, 5]);
}

#[test]
fn scramble_consumer_other_script_same_result() {
    // The same data through a very different script reaches the sink
    // unchanged: the scramble is behaviourally invisible.
    let sink = rw::con_::cursor::cursor(vec![0u8; 8]);
    let ops = consume_script(vec![
        ConsumeOperation::Flush,
        ConsumeOperation::ConsumerSlots(1),
        ConsumeOperation::Consume,
        ConsumeOperation::BulkConsume(7),
    ]);
    let mut s = ScrambleConsumer::new(sink, ops, 1);
    for item in [9u8, 8, 7, 6, 5] {
        assert_eq!(s.consume(item), Ok(()));
    }
    assert_eq!(Consumer::flush(&mut s), Ok(()));
    let out = s.into_inner().into_inner();
    assert_eq!(&out[..5], &[9, 8, 7, 6, 5]);
}

#[test]
fn scramble_consumer_bulk_interface() {
    let sink = rw::con_::cursor::cursor(vec![0u8; 16]);
    let ops = consume_script(vec![
        ConsumeOperation::Consume,
        ConsumeOperation::BulkConsume(3),
    ]);
    let mut s = ScrambleConsumer::new(sink, ops, 4);
    let mut fed = 0usize;
    let data = [1u8, 2, 3, 4, 5, 6, 7, 8, 9, 10];
    while fed < data.len() {
        let n = s.bulk_consume(&data[fed..]).unwrap();
        assert!(n >= 1);
        fed += n;
    }
    assert_eq!(Consumer::flush(&mut s), Ok(()));
    let out = s.into_inner().into_inner();
    assert_eq!(&out[..10], &data);
}

#[test]
fn scramble_consumer_nested() {
    // Two independently scripted wrappers around the same sink preserve
    // the data exactly.
    let sink = rw::con_::cursor::cursor(vec![0u8; 32]);
    let inner_ops = consume_script(vec![
        ConsumeOperation::BulkConsume(2),
        ConsumeOperation::Flush,
        ConsumeOperation::Consume,
    ]);
    let outer_ops = consume_script(vec![
        ConsumeOperation::Consume,
        ConsumeOperation::ConsumerSlots(3),
    ]);
    let inner = ScrambleConsumer::new(sink, inner_ops, 2);
    let mut outer = ScrambleConsumer::new(inner, outer_ops, 5);
    let data: Vec<u8> = (0..20).collect();
    let mut src = rw::pro::cursor::cursor(data.clone());
    assert_eq!(bulk_consume_all(&mut src, &mut outer, 10000), Some(()));
    assert_eq!(Consumer::flush(&mut outer), Ok(()));
    let out = outer.into_inner().into_inner().into_inner();
    assert_eq!(&out[..20], &data[..]);
}

#[test]
fn scramble_producer_scripted_scenario() {
    let src = rw::pro::cursor::cursor(vec![1u8, 2, 3, 4, 5, 6, 7]);
    let ops = produce_script(vec![
        ProduceOperation::BulkProduce(2),
        ProduceOperation::Produce,
        ProduceOperation::Slurp,
    ]);
    let mut s = ScrambleProducer::new(src, ops, 3);
    for want in 1u8..=7 {
        assert_eq!(s.produce(), Ok(want));
    }
    assert_eq!(s.produce(), Err(()));
}

#[test]
fn scramble_producer_bulk_interface() {
    let src = rw::pro::cursor::cursor((0u8..30).collect::<Vec<u8>>());
    let ops = produce_script(vec![
        ProduceOperation::ProducerSlots(4),
        ProduceOperation::Produce,
    ]);
    let mut s = ScrambleProducer::new(src, ops, 4);
    let mut got: Vec<u8> = Vec::new();
    loop {
        match s.bulk_produce(5) {
            Ok(v) => got.extend_from_slice(&v),
            Err(()) => break,
        }
    }
    assert_eq!(got, (0u8..30).collect::<Vec<u8>>());
}

#[test]
fn scramble_producer_defers_error_behind_staged_data() {
    // The inner source errors while items are still staged: those items
    // are produced first, only then does the error surface.
    let src = rw::pro::cursor::cursor(vec![1u8, 2, 3]);
    let ops = produce_script(vec![ProduceOperation::BulkProduce(8)]);
    let mut s = ScrambleProducer::new(src, ops, 8);
    // slurp pulls until the staging buffer would fill; the source only has
    // three items, so the exhaustion error is observed and deferred
    assert_eq!(s.slurp(), Ok(()));
    assert_eq!(s.produce(), Ok(1));
    assert_eq!(s.produce(), Ok(2));
    assert_eq!(s.produce(), Ok(3));
    assert_eq!(s.produce(), Err(()));
}

#[test]
fn scramble_producer_nested() {
    let src = rw::pro::cursor::cursor((0u8..25).collect::<Vec<u8>>());
    let inner_ops = produce_script(vec![
        ProduceOperation::Produce,
        ProduceOperation::BulkProduce(3),
    ]);
    let outer_ops = produce_script(vec![
        ProduceOperation::ProducerSlots(2),
        ProduceOperation::Slurp,
        ProduceOperation::Produce,
    ]);
    let inner = ScrambleProducer::new(src, inner_ops, 4);
    let mut outer = ScrambleProducer::new(inner, outer_ops, 2);
    let mut dst = rw::con_::cursor::cursor(vec![0u8; 25]);
    assert_eq!(bulk_consume_all(&mut outer, &mut dst, 10000), Some(()));
    assert_eq!(dst.into_inner(), (0u8..25).collect::<Vec<u8>>());
}

#[test]
fn scramble_pipe_matches_direct_pipe() {
    // Piping through a scramble wrapper reproduces exactly the bytes of a
    // direct transfer.
    let data: Vec<u8> = (0u8..50).map(|x| x.wrapping_mul(7)).collect();

    let mut direct_dst = rw::con_::cursor::cursor(vec![0u8; 50]);
    let mut direct_src = rw::pro::cursor::cursor(data.clone());
    assert_eq!(
        rw::pipe(&mut direct_src, &mut direct_dst, 10000),
        Some(())
    );
    let direct_out = direct_dst.into_inner();

    let src = rw::pro::cursor::cursor(data.clone());
    let ops = produce_script(vec![
        ProduceOperation::Slurp,
        ProduceOperation::BulkProduce(3),
        ProduceOperation::Produce,
        ProduceOperation::ProducerSlots(5),
    ]);
    let mut s = ScrambleProducer::new(src, ops, 7);
    let mut dst = rw::con_::cursor::cursor(vec![0u8; 50]);
    assert_eq!(rw::pipe(&mut s, &mut dst, 10000), Some(()));
    assert_eq!(dst.into_inner(), direct_out);
}

#[test]
fn scramble_producer_slurp_then_drain() {
    let src = rw::pro::cursor::cursor(vec![1u8, 2, 3, 4, 5]);
    let ops = produce_script(vec![ProduceOperation::Slurp, ProduceOperation::Produce]);
    let mut s = ScrambleProducer::new(src, ops, 2);
    assert_eq!(s.slurp(), Ok(()));
    let v = s.producer_slots().unwrap();
    assert!(!v.is_empty());
    s.did_produce(1);
    assert_eq!(s.produce(), Ok(2));
    assert_eq!(s.produce(), Ok(3));
    assert_eq!(s.produce(), Ok(4));
    assert_eq!(s.produce(), Ok(5));
    assert_eq!(s.produce(), Err(()));
}

#[test]
fn scramble_consumer_capacity_one_window_ops() {
    let sink = rw::con_::cursor::cursor(vec![0u8; 4]);
    let ops = consume_script(vec![ConsumeOperation::ConsumerSlots(9)]);
    let mut s = ScrambleConsumer::new(sink, ops, 1);
    assert_eq!(s.consume(1), Ok(()));
    assert_eq!(s.consume(2), Ok(()));
    assert_eq!(Consumer::flush(&mut s), Ok(()));
    let out = s.into_inner().into_inner();
    assert_eq!(&out[..2], &[1, 2]);
}

#[test]
fn scramble_consumer_errors_when_sink_full() {
    let sink = rw::con_::cursor::cursor(vec![0u8; 2]);
    let ops = consume_script(vec![ConsumeOperation::Consume]);
    let mut s = ScrambleConsumer::new(sink, ops, 1);
    assert_eq!(s.consume(1), Ok(()));
    assert_eq!(s.consume(2), Ok(()));
    assert_eq!(s.consume(3), Ok(()));
    // the sink is full and an item is staged: forwarding it must fail
    assert_eq!(s.consume(4), Err(()));
}
