use pitch_to_key::buffer::FrameBuffer;

#[test]
fn two_batches_drain_in_ascending_order() {
    // Pushing [1..1024] then [1025..2048] and draining 2048 yields the
    // samples in strictly ascending order, with no loss or duplication.
    let mut buf: FrameBuffer<i64> = FrameBuffer::new();
    let first: Vec<i64> = (1..=1024).collect();
    let second: Vec<i64> = (1025..=2048).collect();
    buf.push_batch(&first);
    buf.push_batch(&second);
    assert_eq!(buf.len(), 2048);
    let drained = buf.drain_front(2048);
    assert_eq!(drained.len(), 2048);
    for (i, s) in drained.iter().enumerate() {
        assert_eq!(*s, i as i64 + 1);
    }
    assert_eq!(buf.len(), 0);
}

#[test]
fn drain_removes_exactly_a_prefix() {
    let mut buf: FrameBuffer<u32> = FrameBuffer::new();
    buf.push_batch(&vec![10, 20, 30, 40, 50]);
    let w = buf.drain_front(2);
    assert_eq!(w, vec![10, 20]);
    assert_eq!(buf.len(), 3);
    let rest = buf.drain_front(3);
    assert_eq!(rest, vec![30, 40, 50]);
    assert_eq!(buf.len(), 0);
}

#[test]
fn draining_nothing_changes_nothing() {
    let mut buf: FrameBuffer<u32> = FrameBuffer::new();
    buf.push_batch(&vec![1, 2, 3]);
    let w = buf.drain_front(0);
    assert!(w.is_empty());
    assert_eq!(buf.len(), 3);
}

#[test]
fn pushes_keep_batch_order_with_float_samples() {
    let mut buf: FrameBuffer<f32> = FrameBuffer::new();
    buf.push_batch(&vec![0.5f32, -0.25, 0.125]);
    buf.push_batch(&vec![1.0f32]);
    assert_eq!(buf.len(), 4);
    let w = buf.drain_front(4);
    assert_eq!(w, vec![0.5f32, -0.25, 0.125, 1.0]);
}
