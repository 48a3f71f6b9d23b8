use ktool::message::Message;
use ktool::pipeline::CopyPipeline;
use ktool::pipeline::Phase;
use ktool::pipeline::PipelineConfig;

fn record(offset: i64) -> Message {
    Message::new("t".to_string(), 0, offset, None, None, None, None)
}

#[test]
fn test_records_leave_in_push_order() {
    let config = PipelineConfig::new(100, 10_000, 500);
    let mut p = CopyPipeline::new(&config);
    for offset in [1, 2, 3] {
        assert!(p.can_push());
        p.push(record(offset));
    }
    p.close_input();
    let mut written: Vec<i64> = Vec::new();
    while let Some(msg) = p.take_next() {
        written.push(msg.offset());
        p.write_ok();
    }
    assert_eq!(written, vec![1, 2, 3]);
    assert_eq!(p.transferred(), 3);
}

#[test]
fn test_ordering_independent_of_capacity() {
    // The same interleaving of pushes and writes, at the smallest and a
    // large capacity: the sink sees source order either way.
    for capacity in [1, 64] {
        let config = PipelineConfig::new(capacity, 10_000, 500);
        let mut p = CopyPipeline::new(&config);
        let mut written: Vec<i64> = Vec::new();
        for offset in 0..10 {
            while !p.can_push() {
                let msg = p.take_next().expect("queue full implies non-empty");
                written.push(msg.offset());
                p.write_ok();
            }
            p.push(record(offset));
        }
        p.close_input();
        while let Some(msg) = p.take_next() {
            written.push(msg.offset());
            p.write_ok();
        }
        assert_eq!(written, (0..10).collect::<Vec<i64>>());
    }
}

#[test]
fn test_backpressure_at_capacity_one() {
    let config = PipelineConfig::new(1, 10_000, 500);
    let mut p = CopyPipeline::new(&config);
    assert!(p.can_push());
    p.push(record(1));
    // One unconsumed record ahead of the writer: the reader must block.
    assert!(!p.can_push());
    // The writer takes the record; while it is merely in flight the
    // reader may buffer the next one.
    let msg = p.take_next().expect("one record queued");
    assert!(p.can_push());
    p.push(record(2));
    assert!(!p.can_push());
    assert_eq!(msg.offset(), 1);
}

#[test]
fn test_write_failures_retry_without_loss_or_duplication() {
    let config = PipelineConfig::new(4, 10_000, 500);
    let mut p = CopyPipeline::new(&config);
    p.push(record(7));
    p.close_input();
    let msg = p.take_next().expect("one record queued");
    assert_eq!(msg.offset(), 7);
    // The sink fails exactly twice, then accepts the record.
    p.write_failed();
    p.write_failed();
    p.write_ok();
    assert_eq!(p.transferred(), 1);
    assert_eq!(p.write_errors(), 2);
    assert!(p.take_next().is_none());
}

#[test]
fn test_run_reaches_done_after_flush() {
    let config = PipelineConfig::new(2, 10_000, 500);
    let mut p = CopyPipeline::new(&config);
    assert_eq!(p.phase(), Phase::Reading);
    p.push(record(1));
    p.push(record(2));
    p.close_input();
    assert_eq!(p.phase(), Phase::Draining);
    while let Some(_msg) = p.take_next() {
        p.write_ok();
    }
    p.begin_flush();
    assert_eq!(p.phase(), Phase::Flushing);
    p.flush_failed();
    p.flush_ok();
    assert_eq!(p.phase(), Phase::Done);
    assert_eq!(p.transferred(), 2);
    assert_eq!(p.flush_errors(), 1);
}
