use termcandy::cycle_buffer::CycleBuffer;

#[test]
fn empty_buffer_reports_no_bytes() {
    let b: CycleBuffer<8> = CycleBuffer::new();
    assert_eq!(b.len(), 0);
    assert_eq!(b.free_space(), 8);
}

#[test]
fn fill_then_read_returns_bytes_in_order() {
    let mut b: CycleBuffer<8> = CycleBuffer::new();
    let n = b.fill_from(&[10, 20, 30]);
    assert_eq!(n, 3);
    assert_eq!(b.len(), 3);
    assert_eq!(b.byte_at(0), 10);
    assert_eq!(b.byte_at(1), 20);
    assert_eq!(b.byte_at(2), 30);
}

#[test]
fn fill_is_clipped_by_free_space() {
    let mut b: CycleBuffer<4> = CycleBuffer::new();
    let n = b.fill_from(&[1, 2, 3, 4, 5, 6]);
    assert_eq!(n, 4);
    assert_eq!(b.free_space(), 0);
    let n2 = b.fill_from(&[7]);
    assert_eq!(n2, 0);
}

#[test]
fn round_trip_across_wraparound() {
    let mut b: CycleBuffer<4> = CycleBuffer::new();
    assert_eq!(b.fill_from(&[1, 2, 3]), 3);
    b.consume_initialized(2);
    // the window now starts at slot 2; this write wraps around the end
    assert_eq!(b.fill_from(&[4, 5, 6]), 3);
    assert_eq!(b.len(), 4);
    let mut seen = Vec::new();
    let mut it = b.iter_initialized();
    while let Some(byte) = it.next(&b) {
        seen.push(byte);
    }
    assert_eq!(seen, vec![3, 4, 5, 6]);
}

#[test]
fn take_read_removes_exactly_what_was_read() {
    let mut b: CycleBuffer<4> = CycleBuffer::new();
    b.fill_from(&[9, 8, 7]);
    let mut it = b.iter_initialized();
    it.next(&b);
    it.next(&b);
    assert!(!it.read_to_completion(&b));
    let taken = it.take_read(&mut b);
    assert_eq!(taken, vec![9, 8]);
    assert_eq!(b.len(), 1);
    assert_eq!(b.byte_at(0), 7);
}

#[test]
fn consume_read_commits_the_cursor() {
    let mut b: CycleBuffer<4> = CycleBuffer::new();
    b.fill_from(&[1, 2, 3]);
    let mut it = b.iter_initialized();
    it.next(&b);
    it.consume_read(&mut b);
    assert_eq!(b.len(), 2);
    assert_eq!(b.byte_at(0), 2);
}
