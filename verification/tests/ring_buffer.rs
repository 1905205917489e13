use podium_audio::AudioRingBuffer;

#[test]
fn ring_occupancy_invariant_holds_across_operations() {
    let mut rb = AudioRingBuffer::new(8);
    assert_eq!(rb.available_read() + rb.available_write(), 8 - 1);
    let written = rb.write(&vec![1, 2, 3]);
    assert_eq!(written, 3);
    assert_eq!(rb.available_read() + rb.available_write(), 7);
    let mut out = vec![0u32; 2];
    let filled = rb.read(&mut out);
    assert_eq!(filled, 2);
    assert_eq!(rb.available_read() + rb.available_write(), 7);
}

#[test]
fn ring_reads_back_written_data_in_fifo_order() {
    let mut rb = AudioRingBuffer::new(16);
    assert_eq!(rb.write(&vec![10, 20, 30, 40]), 4);
    assert_eq!(rb.write(&vec![50, 60]), 2);
    let mut out = vec![0u32; 6];
    assert_eq!(rb.read(&mut out), 6);
    assert_eq!(out, vec![10, 20, 30, 40, 50, 60]);
}

#[test]
fn ring_fifo_survives_wraparound() {
    let mut rb = AudioRingBuffer::new(5);
    assert_eq!(rb.write(&vec![1, 2, 3]), 3);
    let mut out = vec![0u32; 3];
    assert_eq!(rb.read(&mut out), 3);
    assert_eq!(out, vec![1, 2, 3]);
    // Cursors now sit mid-buffer; the next write wraps around the end.
    assert_eq!(rb.write(&vec![4, 5, 6, 7]), 4);
    let mut out = vec![0u32; 4];
    assert_eq!(rb.read(&mut out), 4);
    assert_eq!(out, vec![4, 5, 6, 7]);
}

#[test]
fn ring_write_never_exceeds_available_space() {
    let mut rb = AudioRingBuffer::new(4);
    // Capacity 4 leaves at most 3 occupied slots.
    let written = rb.write(&vec![1, 2, 3, 4, 5, 6]);
    assert_eq!(written, 3);
    assert_eq!(rb.available_write(), 0);
    let written = rb.write(&vec![7]);
    assert_eq!(written, 0);
}

#[test]
fn ring_clear_empties_the_buffer() {
    let mut rb = AudioRingBuffer::new(8);
    rb.write(&vec![1, 2, 3, 4]);
    rb.clear();
    assert_eq!(rb.available_read(), 0);
    assert_eq!(rb.available_write(), 7);
}

#[test]
fn ring_resize_replaces_storage_and_resets() {
    let mut rb = AudioRingBuffer::new(8);
    rb.write(&vec![1, 2, 3]);
    rb.resize(16);
    assert_eq!(rb.size(), 16);
    assert_eq!(rb.available_read(), 0);
    assert_eq!(rb.available_write(), 15);
}

#[test]
fn ring_read_leaves_tail_untouched() {
    let mut rb = AudioRingBuffer::new(8);
    rb.write(&vec![9, 8]);
    let mut out = vec![77u32; 5];
    let filled = rb.read(&mut out);
    assert_eq!(filled, 2);
    assert_eq!(out, vec![9, 8, 77, 77, 77]);
}

#[test]
fn ring_fullness_is_in_permille() {
    let mut rb = AudioRingBuffer::new(10);
    assert_eq!(rb.fullness_permille(), 0);
    rb.write(&vec![1, 2, 3, 4, 5]);
    assert_eq!(rb.fullness_permille(), 500);
}
