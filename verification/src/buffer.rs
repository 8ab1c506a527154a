//! The bounded sample buffer bridging the worker context and the real-time
//! audio callback: a fixed-capacity single-producer/single-consumer circular
//! queue, split once into one producer handle and one consumer handle. Both
//! sides are non-blocking: a push at capacity signals full instead of
//! overwriting, a pop of an empty queue signals empty and the audio side
//! substitutes silence. The queue itself is shared with a concurrently
//! running consumer, so its contents are not modelled; each wrapper states
//! only what holds of every outcome.

use vstd::prelude::*;

verus! {

/// Samples the buffer between the network and audio contexts can hold.
pub const SAMPLE_BUFFER_CAPACITY: usize = 10000;

/// Declares ringbuf::RingBuffer so it can stand in signatures; its inside
/// stays opaque.
#[verifier::external_type_specification]
#[verifier::external_body]
#[verifier::reject_recursive_types(T)]
pub struct ExRingBuffer<T>(ringbuf::RingBuffer<T>);

/// Declares ringbuf::Producer, the queue's only writing handle.
#[verifier::external_type_specification]
#[verifier::external_body]
#[verifier::reject_recursive_types(T)]
pub struct ExProducer<T>(ringbuf::Producer<T>);

/// Declares ringbuf::Consumer, the queue's only reading handle.
#[verifier::external_type_specification]
#[verifier::external_body]
#[verifier::reject_recursive_types(T)]
pub struct ExConsumer<T>(ringbuf::Consumer<T>);

/// Relies on ringbuf::RingBuffer::new: allocates a backing store for exactly
/// `capacity` elements, fixed for the buffer's lifetime.
#[verifier::external_body]
fn ring_buffer_new(capacity: usize) -> ringbuf::RingBuffer<i16> {
    ringbuf::RingBuffer::new(capacity)
}

/// Relies on ringbuf::RingBuffer::split: consumes the buffer and hands out
/// its only producer handle and its only consumer handle.
#[verifier::external_body]
fn ring_buffer_split(buffer: ringbuf::RingBuffer<i16>) -> (
    ringbuf::Producer<i16>,
    ringbuf::Consumer<i16>,
) {
    buffer.split()
}

/// Relies on ringbuf::Producer::push: appends without blocking; when the
/// queue is at capacity it enqueues nothing, overwrites nothing, and returns
/// the rejected sample.
#[verifier::external_body]
pub(crate) fn producer_push(producer: &mut ringbuf::Producer<i16>, sample: i16) -> (r: Result<
    (),
    i16,
>)
    ensures
        r matches Err(s) ==> s == sample,
{
    producer.push(sample)
}

/// Relies on ringbuf::Consumer::pop: removes and returns the oldest sample
/// without blocking, or returns nothing when the queue is empty.
#[verifier::external_body]
fn consumer_pop(consumer: &mut ringbuf::Consumer<i16>) -> Option<i16> {
    consumer.pop()
}

/// Creates the sample buffer and splits it into the producer handle for the
/// network session and the consumer handle for the audio output session;
/// each exists exactly once for the buffer's lifetime.
pub fn create_sample_buffer(capacity: usize) -> (ringbuf::Producer<i16>, ringbuf::Consumer<i16>) {
    let buffer = ring_buffer_new(capacity);
    ring_buffer_split(buffer)
}

/// Underrun policy of the audio callback: a missing sample is rendered as
/// silence, never waited for.
pub fn silence_default(sample: Option<i16>) -> (r: i16)
    ensures
        sample matches Some(s) ==> r == s,
        sample is None ==> r == 0,
{
    match sample {
        Some(s) => s,
        None => 0,
    }
}

/// One audio-callback fetch: the oldest buffered sample, or silence when the
/// buffer has run dry.
pub fn next_sample(consumer: &mut ringbuf::Consumer<i16>) -> i16 {
    silence_default(consumer_pop(consumer))
}

/// Pushes a batch of samples into the buffer in order. A sample the full
/// buffer rejects is dropped — never blocked on, never overwriting — and the
/// rest of the batch is still offered. Returns how many were dropped.
pub fn push_samples(producer: &mut ringbuf::Producer<i16>, samples: &Vec<i16>) -> (dropped: usize)
    ensures
        dropped <= samples@.len(),
{
    let mut dropped: usize = 0;
    let mut i: usize = 0;
    while i < samples.len()
        invariant
            i <= samples@.len(),
            dropped <= i,
        decreases samples@.len() - i,
    {
        match producer_push(producer, samples[i]) {
            Ok(()) => (),
            Err(_) => {
                dropped = dropped + 1;
            },
        }
        i += 1;
    }
    dropped
}

} // verus!
