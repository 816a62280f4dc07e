use opus_mixer::ring_buffer::BUFFER_SIZE;
use opus_mixer::{get_buffer_size, get_metadata_size, RingBuffer};

#[test]
fn new_ring_is_empty() {
    let rb: RingBuffer<i32> = RingBuffer::new(0);
    assert_eq!(rb.available_read(), 0);
    assert_eq!(rb.available_write(), BUFFER_SIZE - 1);
    assert_eq!(rb.get_buffer_size(), 7680);
    assert_eq!(get_buffer_size(), 7680);
    assert_eq!(get_metadata_size(), 2);
    assert_eq!(rb.get_buffer().len(), 7680);
    assert_eq!(rb.get_high_water_mark_write(), BUFFER_SIZE - 1);
}

#[test]
fn availability_always_sums_to_capacity_minus_one() {
    let mut rb: RingBuffer<i32> = RingBuffer::new(0);
    let chunk: Vec<i32> = (0..1000).collect();
    for turn in 0..40 {
        rb.write(&chunk);
        assert!(rb.available_read() <= BUFFER_SIZE - 1);
        assert_eq!(rb.available_read() + rb.available_write(), BUFFER_SIZE - 1);
        let read = rb.consume(300 + turn * 10);
        assert!(read.len() <= 300 + turn * 10);
        assert_eq!(rb.available_read() + rb.available_write(), BUFFER_SIZE - 1);
        if turn % 3 == 0 {
            rb.update_read_ptr();
        }
        assert_eq!(rb.available_read() + rb.available_write(), BUFFER_SIZE - 1);
    }
}

#[test]
fn samples_come_out_in_order_exactly_once() {
    let mut rb: RingBuffer<i32> = RingBuffer::new(0);
    let mut next: i32 = 0;
    let mut expected: i32 = 0;
    for turn in 0..100 {
        let chunk: Vec<i32> = (next..next + 700).collect();
        let written = rb.write(&chunk);
        next += written as i32;
        let out = rb.consume(250 + (turn % 7) * 100);
        for v in out {
            assert_eq!(v, expected);
            expected += 1;
        }
        rb.update_read_ptr();
    }
    let rest = rb.consume(usize::MAX);
    for v in rest {
        assert_eq!(v, expected);
        expected += 1;
    }
    assert_eq!(expected, next);
}

#[test]
fn update_read_ptr_takes_consumer_index() {
    let mut rb: RingBuffer<i32> = RingBuffer::new(0);
    let chunk: Vec<i32> = (0..500).collect();
    assert_eq!(rb.write(&chunk), 500);
    assert_eq!(rb.consume(120).len(), 120);
    // The producer has not yet seen the consumer's progress.
    assert_eq!(rb.available_write(), BUFFER_SIZE - 1 - 500);
    rb.update_read_ptr();
    assert_eq!(rb.available_read(), 380);
    assert_eq!(rb.available_write(), BUFFER_SIZE - 1 - 380);
    assert_eq!(rb.get_total_reads(), 1);
    assert_eq!(rb.get_total_samples_read(), 120);
    assert_eq!(rb.get_total_underruns(), 0);
    // Nothing new read: no read operation counted.
    rb.update_read_ptr();
    assert_eq!(rb.get_total_reads(), 1);
}

#[test]
fn write_then_read_round_trip() {
    let mut rb: RingBuffer<i32> = RingBuffer::new(0);
    let samples: Vec<i32> = (0..1920).map(|i| i * 3 - 1000).collect();
    assert_eq!(rb.write(&samples), 1920);
    let out = rb.consume(1920);
    assert_eq!(out, samples);
}

#[test]
fn write_is_capped_by_free_space() {
    let mut rb: RingBuffer<i32> = RingBuffer::new(0);
    let big: Vec<i32> = vec![7; 10000];
    assert_eq!(rb.write(&big), BUFFER_SIZE - 1);
    assert_eq!(rb.available_write(), 0);
    assert_eq!(rb.write(&big), 0);
    assert_eq!(rb.get_total_writes(), 2);
    assert_eq!(rb.get_total_samples_written(), BUFFER_SIZE - 1);
    assert_eq!(rb.get_high_water_mark_read(), BUFFER_SIZE - 1);
}

#[test]
fn wraps_around_the_end() {
    let mut rb: RingBuffer<i32> = RingBuffer::new(0);
    let first: Vec<i32> = vec![1; 7000];
    assert_eq!(rb.write(&first), 7000);
    assert_eq!(rb.consume(7000).len(), 7000);
    rb.update_read_ptr();
    let second: Vec<i32> = (0..2000).collect();
    assert_eq!(rb.write(&second), 2000);
    assert_eq!(rb.consume(2000), second);
}

#[test]
fn clear_and_reset_metrics() {
    let mut rb: RingBuffer<i32> = RingBuffer::new(0);
    let chunk: Vec<i32> = vec![5; 100];
    rb.write(&chunk);
    rb.clear();
    assert_eq!(rb.available_read(), 0);
    assert_eq!(rb.consume(10).len(), 0);
    assert_eq!(rb.get_total_writes(), 1);
    rb.reset_metrics();
    assert_eq!(rb.get_total_writes(), 0);
    assert_eq!(rb.get_total_samples_written(), 0);
    assert_eq!(rb.get_high_water_mark_read(), 0);
    assert_eq!(rb.get_high_water_mark_write(), BUFFER_SIZE - 1);
}
