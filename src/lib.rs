//! A bounded single-producer/single-consumer relay of audio samples between a
//! capture callback and a playback callback, with its latency arithmetic and
//! the lifecycle of the loopback stream.
//!
//! Samples travel as the bit patterns of 32-bit floats; the relay never looks
//! inside a sample, and the all-zero pattern is silence.

mod latency;
mod laws;
mod lifecycle;
mod relay;

pub use latency::{latency_samples, relay_capacity, spec_latency_samples};
pub use laws::{
    after_ops, lemma_backpressure, lemma_count_within_capacity, lemma_fifo,
    lemma_no_double_read, lemma_push_all_keeps_what_fits, lemma_underflow_gives_silence, pop_n,
    push_accepts,
};
pub use lifecycle::{next_phase, spec_next_phase, watch, Event, Phase};
pub use relay::{
    consumed, drained, kept, played, pop_outputs, pop_result, popped, produced, push_all, pushed,
    Relay, Sample, SampleConsumer, SampleProducer, SILENCE,
};
