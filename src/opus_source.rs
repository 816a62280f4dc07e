use vstd::prelude::*;

use crate::opus_mixer::audio_mixer::{seek_outcome, AudioMixer};
use crate::opus_mixer::audio_stream::AudioStream;
use crate::opus_mixer::FRAME_SIZE;
use crate::ring_buffer::RingBuffer;

verus! {

/// Interleaved samples in one stereo frame.
pub const STEREO_FRAME: usize = FRAME_SIZE * 2;

/// How many frames a producer turn asked for `requested` samples may mix:
/// enough frames to cover the request, but no more than fit whole into the
/// free space.
pub open spec fn frame_budget(requested: nat, free: nat) -> nat {
    let wanted = ((requested + FRAME_SIZE - 1) as nat) / (FRAME_SIZE as nat);
    let room = free / (STEREO_FRAME as nat);
    if wanted < room {
        wanted
    } else {
        room
    }
}

/// The producer that feeds mixed Opus streams into a ring buffer. A turn
/// asked for `n` samples runs as: `frames_to_process(n)`, then for each frame
/// the mixer's frame cycle, then `push_frame`, stopping early when the mixer
/// has nothing or the ring is full.
pub struct OpusSource {
    pub sample_rate: u32,
    pub ring_buffer: RingBuffer<i32>,
    pub mixer: Option<AudioMixer>,
    pub is_running: bool,
    pub file_loaded: bool,
}

impl OpusSource {
    pub open spec fn wf(&self) -> bool {
        &&& self.ring_buffer.wf()
        &&& self.mixer matches Some(m) ==> m.wf()
    }

    /// A stopped producer with an empty ring and no streams.
    pub fn new(sample_rate: u32) -> (r: Self)
        ensures
            r.wf(),
            r.sample_rate == sample_rate,
            r.mixer is None,
            !r.is_running,
            !r.file_loaded,
            r.ring_buffer.pending().len() == 0,
            r.ring_buffer.available_read_spec() == 0,
    {
        OpusSource {
            sample_rate,
            ring_buffer: RingBuffer::new(0),
            mixer: None,
            is_running: false,
            file_loaded: false,
        }
    }

    /// Mixes `streams` from now on, starting at timestamp zero.
    pub fn load_files(&mut self, streams: Vec<AudioStream>)
        requires
            old(self).wf(),
            forall|i: int| 0 <= i < streams@.len() ==> #[trigger] streams@[i].wf(),
        ensures
            final(self).wf(),
            final(self).mixer matches Some(m) && m.streams@ == streams@ && m.start_timestamp == 0
                && m.active_streams == streams@.len(),
            final(self).file_loaded,
            final(self).ring_buffer == old(self).ring_buffer,
            final(self).is_running == old(self).is_running,
    {
        self.mixer = Some(AudioMixer::new(streams, 0));
        self.file_loaded = true;
    }

    /// Mixes the single stream `stream` from now on, starting at timestamp zero.
    pub fn load_file(&mut self, stream: AudioStream)
        requires
            old(self).wf(),
            stream.wf(),
        ensures
            final(self).wf(),
            final(self).mixer matches Some(m) && m.streams@ == seq![stream] && m.start_timestamp
                == 0,
            final(self).file_loaded,
            final(self).ring_buffer == old(self).ring_buffer,
            final(self).is_running == old(self).is_running,
    {
        let mut streams: Vec<AudioStream> = Vec::new();
        streams.push(stream);
        proof {
            assert(streams@ =~= seq![stream]);
        }
        self.load_files(streams);
    }

    /// Seeks every stream back to the mixer's start timestamp. Returns, per
    /// stream, the channel count of the decoder to reopen (`None` for a
    /// stream whose seek failed, which is now finished), or `None` when
    /// nothing is loaded.
    pub fn reset(&mut self) -> (r: Option<Vec<Option<u16>>>)
        requires
            old(self).wf(),
        ensures
            final(self).wf(),
            old(self).mixer is None <==> r is None,
            old(self).mixer is None ==> *final(self) == *old(self),
            r matches Some(c) ==> old(self).mixer matches Some(old_m) && final(self).mixer matches Some(m)
                && c@.len() == m.streams@.len() && m.streams@.len() == old_m.streams@.len()
                && m.start_timestamp == old_m.start_timestamp && m.target_granule
                == old_m.start_timestamp && forall|i: int|
                0 <= i < old_m.streams@.len() ==> seek_outcome(
                    old_m.streams@[i].data(),
                    #[trigger] m.streams@[i],
                    old_m.stream_finished@[i],
                    m.stream_finished@[i],
                    old_m.start_timestamp as int,
                    c@[i],
                ),
            final(self).ring_buffer == old(self).ring_buffer,
            final(self).is_running == old(self).is_running,
            final(self).file_loaded == old(self).file_loaded,
    {
        match &mut self.mixer {
            None => None,
            Some(mixer) => Some(mixer.seek_to_timestamp()),
        }
    }

    pub fn is_file_loaded(&self) -> (r: bool)
        ensures
            r == self.file_loaded,
    {
        self.file_loaded
    }

    pub fn start(&mut self)
        ensures
            final(self).is_running,
            final(self).ring_buffer == old(self).ring_buffer,
            final(self).mixer == old(self).mixer,
            final(self).file_loaded == old(self).file_loaded,
            final(self).sample_rate == old(self).sample_rate,
    {
        self.is_running = true;
    }

    pub fn stop(&mut self)
        ensures
            !final(self).is_running,
            final(self).ring_buffer == old(self).ring_buffer,
            final(self).mixer == old(self).mixer,
            final(self).file_loaded == old(self).file_loaded,
            final(self).sample_rate == old(self).sample_rate,
    {
        self.is_running = false;
    }

    pub fn is_running(&self) -> (r: bool)
        ensures
            r == self.is_running,
    {
        self.is_running
    }

    /// The ring buffer the consumer reads from.
    pub fn get_ring_buffer(&self) -> (r: &RingBuffer<i32>)
        ensures
            *r == self.ring_buffer,
    {
        &self.ring_buffer
    }

    /// The ring buffer, for the consumer side.
    pub fn ring_buffer_mut(&mut self) -> (r: &mut RingBuffer<i32>)
        ensures
            *r == old(self).ring_buffer,
            final(self).ring_buffer == *final(r),
            final(self).mixer == old(self).mixer,
            final(self).is_running == old(self).is_running,
            final(self).file_loaded == old(self).file_loaded,
            final(self).sample_rate == old(self).sample_rate,
    {
        &mut self.ring_buffer
    }

    /// The mixer, when streams are loaded.
    pub fn mixer_mut(&mut self) -> (r: Option<&mut AudioMixer>)
        ensures
            old(self).mixer is None <==> r is None,
            r matches Some(m) ==> old(self).mixer == Some(*m) && final(self).mixer == Some(
                *final(m),
            ),
            final(self).ring_buffer == old(self).ring_buffer,
            final(self).is_running == old(self).is_running,
            final(self).file_loaded == old(self).file_loaded,
            final(self).sample_rate == old(self).sample_rate,
    {
        self.mixer.as_mut()
    }

    /// Starts a producer turn asked for `requested` samples: takes in the
    /// consumer's progress and returns how many frames may be mixed, at most
    /// as many as cover the request and as fit whole into the free space.
    /// A stopped producer, or one without streams, mixes nothing and leaves
    /// everything as it is.
    pub fn frames_to_process(&mut self, requested: usize) -> (r: usize)
        requires
            old(self).wf(),
        ensures
            final(self).wf(),
            !old(self).is_running || old(self).mixer is None ==> r == 0 && *final(self) == *old(
                self,
            ),
            old(self).is_running && old(self).mixer is Some ==> {
                &&& final(self).ring_buffer.read_index() == old(self).ring_buffer.consumer_index()
                &&& final(self).ring_buffer.pending() == old(self).ring_buffer.pending()
                &&& final(self).ring_buffer.written() == old(self).ring_buffer.written()
                &&& final(self).ring_buffer.write_index() == old(self).ring_buffer.write_index()
                &&& r == frame_budget(
                    requested as nat,
                    final(self).ring_buffer.available_write_spec(),
                )
            },
            r * STEREO_FRAME <= final(self).ring_buffer.available_write_spec(),
            final(self).mixer == old(self).mixer,
            final(self).is_running == old(self).is_running,
            final(self).file_loaded == old(self).file_loaded,
    {
        if !self.is_running || self.mixer.is_none() {
            proof {
                crate::ring_buffer::lemma_availability_bounds(self.ring_buffer);
            }
            return 0;
        }
        self.ring_buffer.update_read_ptr();
        let available = self.ring_buffer.available_write();
        let wanted = requested / FRAME_SIZE + if requested % FRAME_SIZE == 0 {
            0
        } else {
            1
        };
        let room = available / STEREO_FRAME;
        let r = if wanted < room {
            wanted
        } else {
            room
        };
        proof {
            assert(wanted == (requested + FRAME_SIZE - 1) / (FRAME_SIZE as int));
            assert(room * STEREO_FRAME <= available) by (nonlinear_arith)
                requires
                    room == (available as int) / (STEREO_FRAME as int),
            ;
        }
        r
    }

    /// Writes the frame the mixer just finished into the ring. Returns the
    /// number of samples stored and whether the whole frame fit; when it did
    /// not, the ring is full and the turn should end.
    pub fn push_frame(&mut self) -> (r: (usize, bool))
        requires
            old(self).wf(),
        ensures
            final(self).wf(),
            old(self).mixer is None ==> r == (0usize, false) && *final(self) == *old(self),
            old(self).mixer matches Some(m) ==> {
                let frame = m.mixed_buffer@;
                &&& r.0 == if frame.len() < old(self).ring_buffer.available_write_spec() {
                    frame.len()
                } else {
                    old(self).ring_buffer.available_write_spec()
                }
                &&& r.1 == (r.0 == frame.len())
                &&& final(self).ring_buffer.pending() == old(self).ring_buffer.pending()
                    + frame.take(r.0 as int)
                &&& final(self).ring_buffer.written() == old(self).ring_buffer.written()
                    + frame.take(r.0 as int)
            },
            final(self).mixer == old(self).mixer,
            final(self).is_running == old(self).is_running,
            final(self).file_loaded == old(self).file_loaded,
    {
        match &self.mixer {
            None => (0, false),
            Some(mixer) => {
                let frame = mixer.mixed_samples();
                let written = self.ring_buffer.write(frame);
                (written, written == frame.len())
            },
        }
    }
}

/// Once the consumer stops reading, producer turns stop writing: a turn finds
/// room for no whole frame when less than a stereo frame is free.
pub proof fn lemma_backpressure(requested: nat, free: nat)
    requires
        free < STEREO_FRAME,
    ensures
        frame_budget(requested, free) == 0,
{
}

/// Every frame a turn may mix fits into the ring.
pub proof fn lemma_budget_fits(requested: nat, free: nat)
    ensures
        frame_budget(requested, free) * STEREO_FRAME <= free,
{
    let room = free / (STEREO_FRAME as nat);
    assert(room * STEREO_FRAME <= free) by (nonlinear_arith)
        requires
            room == free / (STEREO_FRAME as nat),
    ;
    assert(frame_budget(requested, free) * STEREO_FRAME <= room * STEREO_FRAME) by (
    nonlinear_arith)
        requires
            frame_budget(requested, free) <= room,
    ;
}

} // verus!
