//! A multi-stream Opus mixer that feeds a single-producer / single-consumer
//! ring buffer of audio samples.
use vstd::prelude::*;

pub mod debug;
pub mod opus_mixer;
pub mod opus_source;
pub mod ring_buffer;
pub mod source;

pub use debug::{is_debug_enabled, set_debug};
pub use opus_mixer::audio_mixer::{AudioMixer, StreamAction};
pub use opus_mixer::audio_stream::{AudioStream, PacketStep, StreamError};
pub use opus_mixer::drift_stats::DriftStats;
pub use opus_mixer::{is_opus_header, is_opus_tags};
pub use opus_source::OpusSource;
pub use ring_buffer::{get_buffer_size, get_metadata_size, RingBuffer};
pub use source::SourceType;

verus! {

/// `a + b`, capped at the largest `usize`.
pub open spec fn sat_add(a: nat, b: nat) -> nat {
    if a + b > usize::MAX {
        usize::MAX as nat
    } else {
        a + b
    }
}

/// The larger of two naturals.
pub open spec fn max_nat(a: nat, b: nat) -> nat {
    if a >= b {
        a
    } else {
        b
    }
}

} // verus!
