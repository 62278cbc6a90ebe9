use option_pricing::batching::{PointBatch, BATCH_LIMIT};

#[test]
fn batch_limit_is_one_thousand() {
    assert_eq!(BATCH_LIMIT, 1000);
}

#[test]
fn push_below_limit_keeps_points_pending() {
    let mut batch: PointBatch<u32> = PointBatch::new();
    assert!(batch.is_empty());
    for i in 0..999u32 {
        assert!(batch.push(i).is_none());
    }
    assert_eq!(batch.len(), 999);
    assert!(!batch.is_empty());
}

#[test]
fn thousandth_point_flushes_whole_batch() {
    let mut batch: PointBatch<u32> = PointBatch::new();
    for i in 0..999u32 {
        batch.push(i);
    }
    let flushed = batch.push(999).expect("the batch is due");
    assert_eq!(flushed, (0..1000u32).collect::<Vec<_>>());
    assert!(batch.is_empty());
}

#[test]
fn stream_writes_every_point_once_in_order() {
    let mut batch: PointBatch<u32> = PointBatch::new();
    let mut written: Vec<Vec<u32>> = Vec::new();
    for i in 0..2500u32 {
        if let Some(b) = batch.push(i) {
            written.push(b);
        }
    }
    if let Some(b) = batch.finish() {
        written.push(b);
    }
    let sizes: Vec<usize> = written.iter().map(|b| b.len()).collect();
    assert_eq!(sizes, vec![1000, 1000, 500]);
    let all: Vec<u32> = written.into_iter().flatten().collect();
    assert_eq!(all, (0..2500u32).collect::<Vec<_>>());
}

#[test]
fn finish_of_empty_batch_writes_nothing() {
    let batch: PointBatch<u32> = PointBatch::new();
    assert!(batch.finish().is_none());
    let mut batch: PointBatch<u32> = PointBatch::new();
    for i in 0..1000u32 {
        batch.push(i);
    }
    assert!(batch.finish().is_none());
}

#[test]
fn drain_hands_back_pending_points() {
    let mut batch: PointBatch<&str> = PointBatch::new();
    batch.push("a");
    batch.push("b");
    assert_eq!(batch.drain(), vec!["a", "b"]);
    assert_eq!(batch.len(), 0);
    assert!(batch.drain().is_empty());
}
