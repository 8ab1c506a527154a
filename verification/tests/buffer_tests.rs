use fast_mic::buffer::{
    create_sample_buffer, next_sample, push_samples, silence_default, SAMPLE_BUFFER_CAPACITY,
};
use fast_mic::socket::process_fill;

#[test]
fn silence_default_values() {
    assert_eq!(silence_default(Some(42)), 42);
    assert_eq!(silence_default(Some(-7)), -7);
    assert_eq!(silence_default(None), 0);
}

#[test]
fn pop_empty_never_blocks_and_is_silent() {
    let (_producer, mut consumer) = create_sample_buffer(4);
    assert_eq!(next_sample(&mut consumer), 0);
    assert_eq!(next_sample(&mut consumer), 0);
}

#[test]
fn push_at_capacity_signals_full_and_keeps_old_samples() {
    let (mut producer, mut consumer) = create_sample_buffer(2);
    let dropped = push_samples(&mut producer, &vec![5, 6, 7, 8]);
    // the two newest samples are dropped; the stored ones are untouched
    assert_eq!(dropped, 2);
    assert_eq!(next_sample(&mut consumer), 5);
    assert_eq!(next_sample(&mut consumer), 6);
    assert_eq!(next_sample(&mut consumer), 0);
}

#[test]
fn buffer_is_first_in_first_out() {
    let (mut producer, mut consumer) = create_sample_buffer(SAMPLE_BUFFER_CAPACITY);
    assert_eq!(push_samples(&mut producer, &vec![1, -2, 3]), 0);
    assert_eq!(next_sample(&mut consumer), 1);
    assert_eq!(push_samples(&mut producer, &vec![4]), 0);
    assert_eq!(next_sample(&mut consumer), -2);
    assert_eq!(next_sample(&mut consumer), 3);
    assert_eq!(next_sample(&mut consumer), 4);
    assert_eq!(next_sample(&mut consumer), 0);
}

#[test]
fn fill_feeds_smoothed_samples_through() {
    let (mut producer, mut consumer) = create_sample_buffer(16);
    // wire bytes for the samples [100, -50, 30]
    let mut bytes = Vec::new();
    for s in [100i16, -50, 30] {
        let b = s.to_le_bytes();
        bytes.push(b[0]);
        bytes.push(b[1]);
    }
    let (carry, dropped) = process_fill(&mut producer, &bytes, 0);
    assert_eq!(dropped, 0);
    assert_eq!(carry, 15);
    assert_eq!(next_sample(&mut consumer), 50);
    assert_eq!(next_sample(&mut consumer), 0);
    assert_eq!(next_sample(&mut consumer), 15);
}

#[test]
fn fill_drops_on_full_but_processes_the_rest() {
    let (mut producer, mut consumer) = create_sample_buffer(1);
    let mut bytes = Vec::new();
    for s in [100i16, -50, 30] {
        let b = s.to_le_bytes();
        bytes.push(b[0]);
        bytes.push(b[1]);
    }
    let (carry, dropped) = process_fill(&mut producer, &bytes, 0);
    // the whole chunk is still smoothed: the carry reflects the last output
    assert_eq!(carry, 15);
    assert_eq!(dropped, 2);
    assert_eq!(next_sample(&mut consumer), 50);
    assert_eq!(next_sample(&mut consumer), 0);
}
