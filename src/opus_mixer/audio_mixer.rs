use vstd::arithmetic::div_mod::{
    lemma_div_is_ordered, lemma_div_is_ordered_by_denominator,
    lemma_div_multiples_vanish_quotient,
};
use vstd::arithmetic::mul::lemma_mul_inequality;
use vstd::prelude::*;

use crate::opus_mixer::audio_stream::{decode_channels, AudioStream, PacketStep, StreamError};
use crate::opus_mixer::drift_stats::UNITY_PPM;
use crate::opus_mixer::FRAME_SIZE;

verus! {

/// Samples between two synchronization checks: one second at 48 kHz.
pub const SYNC_INTERVAL: u64 = 48000;

/// Drift beyond this many samples (1 ms) is compensated.
pub const DRIFT_THRESHOLD: u64 = 48;

/// Number of unfinished streams among the first `n`.
pub open spec fn unfinished_count(f: Seq<bool>, n: int) -> nat
    decreases n,
{
    if n <= 0 {
        0
    } else {
        unfinished_count(f, n - 1) + if f[n - 1] {
            0nat
        } else {
            1nat
        }
    }
}

/// Sum of the positions of the unfinished streams among the first `n`.
pub open spec fn position_sum(s: Seq<AudioStream>, f: Seq<bool>, n: int) -> nat
    decreases n,
{
    if n <= 0 {
        0
    } else {
        position_sum(s, f, n - 1) + if f[n - 1] {
            0nat
        } else {
            s[n - 1].current_granule_position as nat
        }
    }
}

/// Smallest position of the unfinished streams among the first `n`
/// (`u64::MAX` when there is none).
pub open spec fn position_min(s: Seq<AudioStream>, f: Seq<bool>, n: int) -> nat
    decreases n,
{
    if n <= 0 {
        u64::MAX as nat
    } else {
        let m = position_min(s, f, n - 1);
        if !f[n - 1] && (s[n - 1].current_granule_position as nat) < m {
            s[n - 1].current_granule_position as nat
        } else {
            m
        }
    }
}

/// Largest position of the unfinished streams among the first `n` (0 when
/// there is none).
pub open spec fn position_max(s: Seq<AudioStream>, f: Seq<bool>, n: int) -> nat
    decreases n,
{
    if n <= 0 {
        0
    } else {
        let m = position_max(s, f, n - 1);
        if !f[n - 1] && (s[n - 1].current_granule_position as nat) > m {
            s[n - 1].current_granule_position as nat
        } else {
            m
        }
    }
}

/// The amplitude adjustment, in parts per million, for a stream `drift`
/// samples away from the average after `elapsed` samples since the last
/// check: the drift in seconds, at most 2 % per second elapsed, and never more
/// than the whole amplitude.
pub open spec fn adjustment_ppm(drift: nat, elapsed: nat) -> nat {
    let by_drift = drift * 125 / 6;
    let by_time = elapsed * 5 / 12;
    let a = if by_drift < by_time {
        by_drift
    } else {
        by_time
    };
    if a < UNITY_PPM {
        a
    } else {
        UNITY_PPM as nat
    }
}

/// The compensation a stream at `pos` receives when the average is `avg`:
/// unity within 1 ms of the average, attenuated when ahead, boosted when behind.
pub open spec fn compensation_for(pos: nat, avg: nat, elapsed: nat) -> nat {
    let drift = if pos >= avg {
        (pos - avg) as nat
    } else {
        (avg - pos) as nat
    };
    if drift <= DRIFT_THRESHOLD {
        UNITY_PPM as nat
    } else if pos > avg {
        (UNITY_PPM - adjustment_ppm(drift, elapsed)) as nat
    } else {
        (UNITY_PPM + adjustment_ppm(drift, elapsed)) as nat
    }
}

/// A decoded sample's share in the mix: scaled by `comp` parts per million
/// and divided by the number of active streams, rounded toward zero.
pub open spec fn contribution(sample: int, comp: nat, active: nat) -> int {
    let magnitude = if sample >= 0 {
        sample
    } else {
        -sample
    };
    let share = (magnitude * comp) / (UNITY_PPM * active);
    if sample >= 0 {
        share
    } else {
        -share
    }
}

/// `v` clamped to the range of `i32`.
pub open spec fn clamp_i32(v: int) -> int {
    if v > i32::MAX {
        i32::MAX as int
    } else if v < i32::MIN {
        i32::MIN as int
    } else {
        v
    }
}

/// The input sample that lands on output slot `j` of a stereo frame when
/// `frames` frames with `ch` channels were decoded into `decoded`: a mono
/// sample goes to both channels. `None` past the decoded frames.
pub open spec fn source_sample(decoded: Seq<i16>, ch: nat, frames: nat, j: int) -> Option<int> {
    if j < 0 || j >= 2 * frames {
        None
    } else if ch == 1 {
        Some(decoded[j / 2] as int)
    } else {
        Some(decoded[j] as int)
    }
}

/// The compensation for a stream at `pos` when the average is `avg`, after
/// `elapsed` samples since the last check (see `compensation_for`).
pub fn compensation(pos: u64, avg: u64, elapsed: u64) -> (r: u32)
    ensures
        r == compensation_for(pos as nat, avg as nat, elapsed as nat),
        r <= 2 * UNITY_PPM,
{
    let drift = if pos >= avg {
        pos - avg
    } else {
        avg - pos
    };
    if drift <= DRIFT_THRESHOLD {
        return UNITY_PPM;
    }
    let by_drift: u128 = (drift as u128) * 125 / 6;
    let by_time: u128 = (elapsed as u128) * 5 / 12;
    let mut adjustment = if by_drift < by_time {
        by_drift
    } else {
        by_time
    };
    if adjustment > UNITY_PPM as u128 {
        adjustment = UNITY_PPM as u128;
    }
    let adjustment = adjustment as u32;
    if pos > avg {
        UNITY_PPM - adjustment
    } else {
        UNITY_PPM + adjustment
    }
}

/// Records one stream's drift from the average `avg` and sets its
/// compensation accordingly.
fn sync_stream(stream: &mut AudioStream, avg: u64, elapsed: u64)
    requires
        old(stream).wf(),
    ensures
        final(stream).wf(),
        final(stream).drift_compensation == compensation_for(
            old(stream).current_granule_position as nat,
            avg as nat,
            elapsed as nat,
        ),
        final(stream).data == old(stream).data,
        final(stream).decoded_buffer == old(stream).decoded_buffer,
        final(stream).current_granule_position == old(stream).current_granule_position,
        final(stream).total_samples_decoded == old(stream).total_samples_decoded,
        final(stream).channel_count == old(stream).channel_count,
        final(stream).header_processed == old(stream).header_processed,
        final(stream).comments_processed == old(stream).comments_processed,
{
    let pos = stream.current_granule_position;
    let drift = if pos >= avg {
        pos - avg
    } else {
        avg - pos
    };
    let comp = compensation(pos, avg, elapsed);
    stream.drift_stats.update_drift(drift);
    if drift > DRIFT_THRESHOLD {
        stream.drift_stats.update_compensation(comp);
    }
    stream.drift_compensation = comp;
}

proof fn lemma_count_extend(f: Seq<bool>, x: bool, n: int)
    requires
        0 <= n <= f.len(),
    ensures
        unfinished_count(f.push(x), n) == unfinished_count(f, n),
    decreases n,
{
    if n > 0 {
        lemma_count_extend(f, x, n - 1);
    }
}

proof fn lemma_count_prefix_frame(f: Seq<bool>, n: int)
    requires
        0 <= n < f.len(),
        !f[n],
    ensures
        unfinished_count(f, n + 1) == unfinished_count(f, n) + 1,
{
}

proof fn lemma_unfinished_count_bound(f: Seq<bool>, n: int)
    requires
        0 <= n <= f.len(),
    ensures
        unfinished_count(f, n) <= n,
    decreases n,
{
    if n > 0 {
        lemma_unfinished_count_bound(f, n - 1);
    }
}

proof fn lemma_unfinish_one(f: Seq<bool>, idx: int, n: int)
    requires
        0 <= idx < f.len(),
        0 <= n <= f.len(),
        f[idx],
    ensures
        unfinished_count(f.update(idx, false), n) == unfinished_count(f, n) + (if idx < n {
            1nat
        } else {
            0nat
        }),
    decreases n,
{
    if n > 0 {
        lemma_unfinish_one(f, idx, n - 1);
    }
}

proof fn lemma_finish_one(f: Seq<bool>, idx: int, n: int)
    requires
        0 <= idx < f.len(),
        0 <= n <= f.len(),
        !f[idx],
    ensures
        unfinished_count(f.update(idx, true), n) + (if idx < n {
            1nat
        } else {
            0nat
        }) == unfinished_count(f, n),
    decreases n,
{
    if n > 0 {
        lemma_finish_one(f, idx, n - 1);
    }
}

proof fn lemma_positions_frame(s1: Seq<AudioStream>, s2: Seq<AudioStream>, f: Seq<bool>, n: int)
    requires
        0 <= n <= s1.len(),
        s1.len() == s2.len(),
        n <= f.len(),
        forall|i: int|
            0 <= i < s1.len() ==> #[trigger] s1[i].current_granule_position
                == s2[i].current_granule_position,
    ensures
        position_sum(s1, f, n) == position_sum(s2, f, n),
        position_min(s1, f, n) == position_min(s2, f, n),
        position_max(s1, f, n) == position_max(s2, f, n),
    decreases n,
{
    if n > 0 {
        lemma_positions_frame(s1, s2, f, n - 1);
        assert(s1[n - 1].current_granule_position == s2[n - 1].current_granule_position);
    }
}

proof fn lemma_share_bound(magnitude: int, comp: int, active: int)
    requires
        0 <= magnitude <= 32768,
        0 <= comp <= 2 * UNITY_PPM,
        active >= 1,
    ensures
        0 <= (magnitude * comp) / (UNITY_PPM * active) <= 65536,
{
    lemma_mul_inequality(comp, 2 * UNITY_PPM, magnitude);
    lemma_mul_inequality(magnitude, 32768, 2 * UNITY_PPM);
    assert(0 <= magnitude * comp) by (nonlinear_arith)
        requires
            0 <= magnitude,
            0 <= comp,
    ;
    lemma_mul_inequality(1, active, UNITY_PPM as int);
    lemma_div_is_ordered_by_denominator(magnitude * comp, UNITY_PPM as int, UNITY_PPM * active);
    lemma_div_is_ordered(magnitude * comp, 32768 * (2 * UNITY_PPM), UNITY_PPM as int);
}

/// A decoded sample's share in the mix (see `contribution`).
pub fn scaled_sample(sample: i16, comp: u32, active: usize) -> (r: i32)
    requires
        comp <= 2 * UNITY_PPM,
        active >= 1,
    ensures
        r == contribution(sample as int, comp as nat, active as nat),
        -65536 <= r <= 65536,
{
    let magnitude: u64 = if sample >= 0 {
        sample as u64
    } else {
        (0i64 - (sample as i64)) as u64
    };
    proof {
        lemma_share_bound(magnitude as int, comp as int, active as int);
    }
    assert((magnitude as int) * (comp as int) <= 32768 * 2000000) by (nonlinear_arith)
        requires
            magnitude <= 32768,
            comp <= 2000000,
    ;
    let share = ((magnitude as u128) * (comp as u128)) / (1_000_000u128 * (active as u128));
    if sample >= 0 {
        share as i32
    } else {
        0i32 - (share as i32)
    }
}

/// `a + b` clamped to the range of `i32`.
pub fn add_clamped(a: i32, b: i32) -> (r: i32)
    ensures
        r == clamp_i32(a + b),
{
    let sum = (a as i64) + (b as i64);
    if sum > i32::MAX as i64 {
        i32::MAX
    } else if sum < i32::MIN as i64 {
        i32::MIN
    } else {
        sum as i32
    }
}

/// No amplification: when a stream is not boosted, each of its samples adds
/// at most its magnitude divided by the number of active streams to the mix.
pub proof fn lemma_no_amplification(sample: int, comp: nat, active: nat)
    requires
        comp <= UNITY_PPM,
        active >= 1,
    ensures
        ({
            let magnitude = if sample >= 0 {
                sample
            } else {
                -sample
            };
            let c = contribution(sample, comp, active);
            (if c >= 0 {
                c
            } else {
                -c
            }) <= magnitude / (active as int)
        }),
{
    let magnitude = if sample >= 0 {
        sample
    } else {
        -sample
    };
    lemma_mul_inequality(comp as int, UNITY_PPM as int, magnitude);
    assert(0 <= magnitude * comp) by (nonlinear_arith)
        requires
            0 <= magnitude,
    ;
    assert(UNITY_PPM * active > 0) by (nonlinear_arith)
        requires
            active >= 1,
    ;
    lemma_div_is_ordered(magnitude * comp, magnitude * UNITY_PPM, UNITY_PPM * active);
    lemma_div_multiples_vanish_quotient(UNITY_PPM as int, magnitude, active as int);
    assert(magnitude * UNITY_PPM == UNITY_PPM * magnitude) by (nonlinear_arith);
}

/// Mixing never moves a slot by more than the share the contribution gives.
pub proof fn lemma_clamped_sum_bound(a: int, c: int)
    ensures
        ({
            let r = clamp_i32(a + c);
            let abs_r = if r >= 0 {
                r
            } else {
                -r
            };
            let abs_a = if a >= 0 {
                a
            } else {
                -a
            };
            let abs_c = if c >= 0 {
                c
            } else {
                -c
            };
            abs_r <= abs_a + abs_c
        }),
{
}

/// `new` is where a seek to `start` of a stream over `data` lands.
pub open spec fn landed_at(data: Seq<u8>, new: AudioStream, start: int) -> bool {
    crate::opus_mixer::ogg_page::seek_point(data, start) matches Some((b, g))
        && new.current_granule_position == g
}

/// What a seek of one stream to `start` led to: with `Some(c)` the stream
/// landed where the bisection over `data` says, has both headers, wants a
/// decoder of `c` channels and takes part in the mix again; with `None` the
/// seek failed and the stream is finished.
pub open spec fn seek_outcome(
    data: Seq<u8>,
    new: AudioStream,
    was_finished: bool,
    finished: bool,
    start: int,
    c: Option<u16>,
) -> bool {
    match c {
        Some(ch) => {
            &&& landed_at(data, new, start)
            &&& new.header_processed && new.comments_processed
            &&& ch == decode_channels(new.channel_count)
            &&& !finished
        },
        None => finished,
    }
}

/// Two states of a stream with the same media position and header state.
pub open spec fn same_media(a: &AudioStream, b: &AudioStream) -> bool {
    &&& a.current_granule_position == b.current_granule_position
    &&& a.total_samples_decoded == b.total_samples_decoded
    &&& a.data() == b.data()
    &&& a.decoded() == b.decoded()
    &&& a.channel_count == b.channel_count
    &&& a.header_processed == b.header_processed
    &&& a.comments_processed == b.comments_processed
}

/// What to do next for one stream within a frame.
#[derive(Debug, PartialEq)]
pub enum StreamAction {
    /// Nothing for this stream in this frame.
    Idle,
    /// Open a fresh decoder with this many channels (1 or 2).
    OpenDecoder(u16),
    /// Decode this packet and hand the result to `mix_decoded`, or report
    /// failure with `decode_failed`.
    Decode(Vec<u8>),
}

/// Mixes several streams in lock-step on a 48 kHz granule timeline, with
/// per-stream amplitude compensation for drift between them. Decoding is left
/// to the caller: per frame, `begin_frame`, then `next_action` for each stream
/// (and `mix_decoded` or `decode_failed` for each packet handed out), then
/// `end_frame`.
pub struct AudioMixer {
    pub streams: Vec<AudioStream>,
    pub active_streams: usize,
    pub stream_finished: Vec<bool>,
    /// The stereo frame being mixed, interleaved.
    pub mixed_buffer: Vec<i32>,
    /// Where a seek places every stream, in 48 kHz samples.
    pub start_timestamp: u64,
    pub target_granule: u64,
    pub last_sync_check: u64,
    pub sync_interval: u64,
    /// Largest spread between the streams seen at a check, in samples.
    pub max_sync_drift: u64,
    /// Some stream contributed to the frame being mixed.
    pub samples_mixed: bool,
}

impl AudioMixer {
    pub open spec fn wf(&self) -> bool {
        &&& self.stream_finished@.len() == self.streams@.len()
        &&& self.active_streams == unfinished_count(
            self.stream_finished@,
            self.stream_finished@.len() as int,
        )
        &&& self.mixed_buffer@.len() == FRAME_SIZE * 2
        &&& self.sync_interval == SYNC_INTERVAL
        &&& forall|i: int| 0 <= i < self.streams@.len() ==> #[trigger] self.streams@[i].wf()
    }

    /// Positions of the unfinished streams: count, sum, smallest, largest.
    pub open spec fn active_count_spec(&self) -> nat {
        unfinished_count(self.stream_finished@, self.streams@.len() as int)
    }

    pub open spec fn average_position(&self) -> nat {
        position_sum(self.streams@, self.stream_finished@, self.streams@.len() as int)
            / self.active_count_spec()
    }

    pub open spec fn min_position(&self) -> nat {
        position_min(self.streams@, self.stream_finished@, self.streams@.len() as int)
    }

    pub open spec fn max_position(&self) -> nat {
        position_max(self.streams@, self.stream_finished@, self.streams@.len() as int)
    }

    /// The synchronization check is due: a whole interval has passed.
    pub open spec fn sync_due(&self) -> bool {
        self.target_granule >= self.last_sync_check + self.sync_interval
    }

    /// What a synchronization check does to `old`, giving `new`.
    pub open spec fn sync_effect(old: &AudioMixer, new: &AudioMixer) -> bool {
        &&& new.streams@.len() == old.streams@.len()
        &&& new.stream_finished@ == old.stream_finished@
        &&& new.active_streams == old.active_streams
        &&& forall|i: int|
            0 <= i < old.streams@.len() ==> same_media(&#[trigger] new.streams@[i], &old.streams@[i])
        &&& if old.sync_due() {
            &&& new.last_sync_check == old.target_granule
            &&& if old.active_count_spec() > 1 {
                &&& new.max_sync_drift == crate::max_nat(
                    old.max_sync_drift as nat,
                    (old.max_position() - old.min_position()) as nat,
                )
                &&& forall|i: int|
                    0 <= i < old.streams@.len() && old.stream_finished@[i] ==> #[trigger] new.streams@[i]
                        == old.streams@[i]
                &&& forall|i: int|
                    0 <= i < old.streams@.len() ==> #[trigger] new.streams@[i].drift_compensation
                        == if old.stream_finished@[i] {
                        old.streams@[i].drift_compensation as nat
                    } else {
                        compensation_for(
                            old.streams@[i].current_granule_position as nat,
                            old.average_position(),
                            (old.target_granule - old.last_sync_check) as nat,
                        )
                    }
            } else {
                &&& new.max_sync_drift == old.max_sync_drift
                &&& new.streams@ == old.streams@
            }
        } else {
            &&& new.last_sync_check == old.last_sync_check
            &&& new.max_sync_drift == old.max_sync_drift
            &&& new.streams@ == old.streams@
        }
    }

    /// A mixer over `streams`, all unfinished, with the mix clock and the
    /// seek target at `start_timestamp` (in 48 kHz samples).
    pub fn new(streams: Vec<AudioStream>, start_timestamp: u64) -> (r: Self)
        requires
            forall|i: int| 0 <= i < streams@.len() ==> #[trigger] streams@[i].wf(),
        ensures
            r.wf(),
            r.streams@ == streams@,
            r.active_streams == streams@.len(),
            forall|i: int| 0 <= i < streams@.len() ==> !#[trigger] r.stream_finished@[i],
            r.start_timestamp == start_timestamp,
            r.target_granule == start_timestamp,
            r.last_sync_check == start_timestamp,
            r.max_sync_drift == 0,
            !r.samples_mixed,
    {
        let n = streams.len();
        let mut finished: Vec<bool> = Vec::new();
        let mut i: usize = 0;
        while i < n
            invariant
                i <= n,
                finished@.len() == i,
                forall|k: int| 0 <= k < i ==> !#[trigger] finished@[k],
                unfinished_count(finished@, i as int) == i,
            decreases n - i,
        {
            let ghost before = finished@;
            finished.push(false);
            proof {
                lemma_count_extend(before, false, i as int);
                lemma_count_prefix_frame(finished@, i as int);
            }
            i += 1;
        }
        let mut mixed: Vec<i32> = Vec::new();
        let mut k: usize = 0;
        while k < FRAME_SIZE * 2
            invariant
                k <= FRAME_SIZE * 2,
                mixed@.len() == k,
            decreases FRAME_SIZE * 2 - k,
        {
            mixed.push(0);
            k += 1;
        }
        AudioMixer {
            streams,
            active_streams: n,
            stream_finished: finished,
            mixed_buffer: mixed,
            start_timestamp,
            target_granule: start_timestamp,
            last_sync_check: start_timestamp,
            sync_interval: SYNC_INTERVAL,
            max_sync_drift: 0,
            samples_mixed: false,
        }
    }

    /// Some stream has not finished.
    pub fn is_active(&self) -> (r: bool)
        ensures
            r == (self.active_streams > 0),
    {
        self.active_streams > 0
    }

    /// The number of streams, finished or not.
    pub fn stream_count(&self) -> (r: usize)
        ensures
            r == self.streams@.len(),
    {
        self.streams.len()
    }

    /// The stereo frame mixed so far, interleaved.
    pub fn mixed_samples(&self) -> (r: &[i32])
        ensures
            r@ == self.mixed_buffer@,
    {
        self.mixed_buffer.as_slice()
    }

    /// Starts mixing a frame. Returns `false` at the end of the mix, when no
    /// stream is left; otherwise clears the frame, runs the synchronization
    /// check, and moves the mix clock to the least advanced unfinished stream.
    pub fn begin_frame(&mut self) -> (r: bool)
        requires
            old(self).wf(),
        ensures
            final(self).wf(),
            r == (old(self).active_streams > 0),
            !r ==> *final(self) == *old(self),
            r ==> {
                &&& Self::sync_effect(&*old(self), &*final(self))
                &&& final(self).target_granule == old(self).min_position()
                &&& forall|j: int|
                    0 <= j < FRAME_SIZE * 2 ==> #[trigger] final(self).mixed_buffer@[j] == 0
                &&& !final(self).samples_mixed
                &&& final(self).start_timestamp == old(self).start_timestamp
            },
            final(self).max_sync_drift >= old(self).max_sync_drift,
    {
        if self.active_streams == 0 {
            return false;
        }
        let mut k: usize = 0;
        while k < FRAME_SIZE * 2
            invariant
                self.wf(),
                self.streams == old(self).streams,
                self.stream_finished == old(self).stream_finished,
                self.active_streams == old(self).active_streams,
                self.target_granule == old(self).target_granule,
                self.last_sync_check == old(self).last_sync_check,
                self.max_sync_drift == old(self).max_sync_drift,
                self.start_timestamp == old(self).start_timestamp,
                self.sync_interval == old(self).sync_interval,
                k <= FRAME_SIZE * 2,
                forall|j: int| 0 <= j < k ==> #[trigger] self.mixed_buffer@[j] == 0,
            decreases FRAME_SIZE * 2 - k,
        {
            self.mixed_buffer.set(k, 0);
            k += 1;
        }
        self.samples_mixed = false;
        let ghost cleared = *self;
        self.check_sync();
        proof {
            lemma_positions_frame(
                cleared.streams@,
                self.streams@,
                self.stream_finished@,
                self.streams@.len() as int,
            );
            assert forall|i: int| 0 <= i < cleared.streams@.len() implies same_media(
                &#[trigger] self.streams@[i],
                &old(self).streams@[i],
            ) by {
                assert(same_media(&self.streams@[i], &cleared.streams@[i]));
            }
        }
        let n = self.streams.len();
        let mut min_pos: u64 = u64::MAX;
        let mut i: usize = 0;
        while i < n
            invariant
                n == self.streams@.len(),
                self.wf(),
                i <= n,
                min_pos == position_min(self.streams@, self.stream_finished@, i as int),
            decreases n - i,
        {
            if !self.stream_finished[i] && self.streams[i].current_granule_position < min_pos {
                min_pos = self.streams[i].current_granule_position;
            }
            i += 1;
        }
        self.target_granule = min_pos;
        true
    }

    /// Marks stream `idx` finished, if it was not already: it takes no more
    /// part in the mix.
    pub fn finish_stream(&mut self, idx: usize)
        requires
            old(self).wf(),
            idx < old(self).streams@.len(),
        ensures
            final(self).wf(),
            final(self).stream_finished@ == old(self).stream_finished@.update(idx as int, true),
            final(self).streams == old(self).streams,
            final(self).mixed_buffer == old(self).mixed_buffer,
            final(self).start_timestamp == old(self).start_timestamp,
            final(self).target_granule == old(self).target_granule,
            final(self).last_sync_check == old(self).last_sync_check,
            final(self).max_sync_drift == old(self).max_sync_drift,
            final(self).samples_mixed == old(self).samples_mixed,
    {
        if !self.stream_finished[idx] {
            proof {
                lemma_finish_one(
                    self.stream_finished@,
                    idx as int,
                    self.stream_finished@.len() as int,
                );
            }
            self.stream_finished.set(idx, true);
            self.active_streams = self.active_streams - 1;
        } else {
            assert(self.stream_finished@.update(idx as int, true) =~= self.stream_finished@);
        }
    }

    /// Lets stream `idx` take part in the mix again.
    fn restart_stream(&mut self, idx: usize)
        requires
            old(self).wf(),
            idx < old(self).streams@.len(),
        ensures
            final(self).wf(),
            final(self).stream_finished@ == old(self).stream_finished@.update(idx as int, false),
            final(self).streams == old(self).streams,
            final(self).mixed_buffer == old(self).mixed_buffer,
            final(self).start_timestamp == old(self).start_timestamp,
            final(self).target_granule == old(self).target_granule,
            final(self).last_sync_check == old(self).last_sync_check,
            final(self).max_sync_drift == old(self).max_sync_drift,
            final(self).samples_mixed == old(self).samples_mixed,
    {
        let n = self.stream_finished.len();
        if self.stream_finished[idx] {
            proof {
                let f = self.stream_finished@;
                assert(f.len() == n);
                lemma_unfinish_one(f, idx as int, f.len() as int);
                lemma_unfinished_count_bound(f.update(idx as int, false), f.len() as int);
            }
            self.stream_finished.set(idx, false);
            self.active_streams = self.active_streams + 1;
        } else {
            assert(self.stream_finished@.update(idx as int, false) =~= self.stream_finished@);
        }
    }

    /// After a packet that gave no audio once both headers are known: reads
    /// one more packet, and marks the stream finished when there is none or
    /// the page is malformed. Returns whether it did.
    fn check_stream_end(&mut self, idx: usize) -> (r: bool)
        requires
            old(self).wf(),
            idx < old(self).streams@.len(),
        ensures
            final(self).wf(),
            Self::frame_step(&*old(self), &*final(self), idx),
            final(self).stream_finished@ == if r {
                old(self).stream_finished@.update(idx as int, true)
            } else {
                old(self).stream_finished@
            },
            final(self).streams@[idx as int].channel_count == old(self).streams@[idx as int].channel_count,
    {
        let ended = self.streams[idx].skip_packet();
        self.end_probe(idx, ended);
        ended
    }

    /// Acts on what the read after a packet without audio found: the stream
    /// is finished exactly when `ended` (it found no packet, or a malformed
    /// page).
    pub fn end_probe(&mut self, idx: usize, ended: bool)
        requires
            old(self).wf(),
            idx < old(self).streams@.len(),
        ensures
            final(self).wf(),
            Self::frame_step(&*old(self), &*final(self), idx),
            final(self).streams == old(self).streams,
            final(self).stream_finished@ == if ended {
                old(self).stream_finished@.update(idx as int, true)
            } else {
                old(self).stream_finished@
            },
    {
        if ended {
            self.finish_stream(idx);
        }
    }

    /// What the packet step `step` that stream `idx` just took means for the
    /// mix. Returns the action and whether one more packet must be read to
    /// learn whether the stream has ended: that is so once both headers are
    /// known and the step gave no audio. A malformed page finishes the stream;
    /// audio is handed out for decoding; the comment header asks for a decoder.
    pub fn act_on_step(&mut self, idx: usize, step: Result<PacketStep, StreamError>) -> (r: (
        StreamAction,
        bool,
    ))
        requires
            old(self).wf(),
            idx < old(self).streams@.len(),
        ensures
            final(self).wf(),
            Self::frame_step(&*old(self), &*final(self), idx),
            step is Err ==> r.0 == StreamAction::Idle && !r.1 && final(self).stream_finished@ == old(self).stream_finished@.update(idx as int, true) && final(self).streams == old(self).streams,
            step is Ok ==> *final(self) == *old(self),
            step matches Ok(PacketStep::Audio(p)) ==> r.0 == StreamAction::Decode(p) && !r.1,
            step matches Ok(PacketStep::OpenDecoder(c)) ==> r.0 == StreamAction::OpenDecoder(c),
            (step matches Ok(PacketStep::Header) || step
                matches Ok(PacketStep::EndOfStream)) ==> r.0 == StreamAction::Idle,
            step is Ok && !(step matches Ok(PacketStep::Audio(_))) ==> r.1 == (old(self).streams@[idx as int].header_processed && old(self).streams@[idx as int].comments_processed),
    {
        match step {
            Err(_) => {
                self.finish_stream(idx);
                (StreamAction::Idle, false)
            },
            Ok(PacketStep::Audio(packet)) => (StreamAction::Decode(packet), false),
            Ok(PacketStep::OpenDecoder(channels)) => (
                StreamAction::OpenDecoder(channels),
                self.streams[idx].headers_done(),
            ),
            Ok(_) => (StreamAction::Idle, self.streams[idx].headers_done()),
        }
    }

    /// `new` follows `old` after work on stream `idx` alone: the other
    /// streams, the frame, the clock and the drift record stay as they were;
    /// stream `idx` keeps its position and may have finished.
    pub open spec fn frame_step(old: &AudioMixer, new: &AudioMixer, idx: usize) -> bool {
        &&& new.streams@.len() == old.streams@.len()
        &&& forall|i: int|
            0 <= i < old.streams@.len() && i != idx ==> #[trigger] new.streams@[i]
                == old.streams@[i]
        &&& forall|i: int|
            0 <= i < old.streams@.len() && i != idx ==> #[trigger] new.stream_finished@[i]
                == old.stream_finished@[i]
        &&& old.stream_finished@[idx as int] ==> new.stream_finished@[idx as int]
        &&& new.streams@[idx as int].current_granule_position == old.streams@[idx as int].current_granule_position
        &&& new.streams@[idx as int].drift_compensation == old.streams@[idx as int].drift_compensation
        &&& new.streams@[idx as int].data() == old.streams@[idx as int].data()
        &&& new.mixed_buffer == old.mixed_buffer
        &&& new.start_timestamp == old.start_timestamp
        &&& new.target_granule == old.target_granule
        &&& new.last_sync_check == old.last_sync_check
        &&& new.max_sync_drift == old.max_sync_drift
        &&& new.samples_mixed == old.samples_mixed
    }

    /// The next step for stream `idx` within the current frame. A finished
    /// stream, or one more than a frame ahead of the mix clock, is left alone.
    /// Otherwise one packet is read: audio is handed out for decoding; a
    /// header gives nothing (the comment header asks for a decoder); once both
    /// headers are known, a packet without audio is followed by one more read,
    /// and the stream is finished when that finds its end. A malformed page
    /// finishes the stream.
    pub fn next_action(&mut self, idx: usize) -> (r: StreamAction)
        requires
            old(self).wf(),
            idx < old(self).streams@.len(),
        ensures
            final(self).wf(),
            Self::frame_step(&*old(self), &*final(self), idx),
            old(self).stream_finished@[idx as int] ==> r == StreamAction::Idle && *final(self)
                == *old(self),
            !old(self).stream_finished@[idx as int] && old(self).streams@[idx as int].current_granule_position
                > old(self).target_granule + FRAME_SIZE ==> r == StreamAction::Idle
                && *final(self) == *old(self),
            r matches StreamAction::Decode(_) ==> !final(self).stream_finished@[idx as int]
                && final(self).streams@[idx as int].header_processed
                && final(self).streams@[idx as int].comments_processed,
            r matches StreamAction::OpenDecoder(c) ==> c == decode_channels(
                final(self).streams@[idx as int].channel_count,
            ),
            final(self).stream_finished@ == old(self).stream_finished@ || final(self).stream_finished@ == old(self).stream_finished@.update(idx as int, true),
    {
        if self.stream_finished[idx] {
            return StreamAction::Idle;
        }
        let pos = self.streams[idx].current_granule_position;
        if pos > self.target_granule && pos - self.target_granule > FRAME_SIZE as u64 {
            return StreamAction::Idle;
        }
        let step = self.streams[idx].process_next_packet();
        let (action, probe) = self.act_on_step(idx, step);
        if probe {
            self.check_stream_end(idx);
        }
        action
    }

    /// Stream `idx`'s packet could not be decoded: no audio from it this
    /// time. Once both headers are known, one more packet is read, and the
    /// stream is finished when that finds its end; returns whether it was.
    pub fn decode_failed(&mut self, idx: usize) -> (r: bool)
        requires
            old(self).wf(),
            idx < old(self).streams@.len(),
        ensures
            final(self).wf(),
            Self::frame_step(&*old(self), &*final(self), idx),
            old(self).stream_finished@[idx as int] || !(old(self).streams@[idx as int].header_processed && old(self).streams@[idx as int].comments_processed) ==> !r && *final(self) == *old(self),
            final(self).stream_finished@ == if r {
                old(self).stream_finished@.update(idx as int, true)
            } else {
                old(self).stream_finished@
            },
    {
        if !self.stream_finished[idx] && self.streams[idx].headers_done() {
            self.check_stream_end(idx)
        } else {
            false
        }
    }

    /// Adds the frame the caller decoded for stream `idx` (`frames` samples
    /// per channel in `pcm`, as `AudioStream::accept_decoded` takes it) into
    /// the stereo mix: each sample scaled by the stream's compensation and
    /// divided by the number of active streams, a mono sample going to both
    /// channels. Returns the number of samples per channel mixed.
    pub fn mix_decoded(&mut self, idx: usize, pcm: &[i16], frames: usize) -> (r: usize)
        requires
            old(self).wf(),
            idx < old(self).streams@.len(),
        ensures
            final(self).wf(),
            old(self).stream_finished@[idx as int] ==> r == 0 && *final(self) == *old(self),
            !old(self).stream_finished@[idx as int] ==> {
                let old_s = old(self).streams@[idx as int];
                let new_s = final(self).streams@[idx as int];
                let ch = decode_channels(old_s.channel_count);
                &&& r == crate::opus_mixer::audio_stream::min3(
                    frames as nat,
                    FRAME_SIZE as nat,
                    pcm@.len() / ch,
                )
                &&& new_s.decoded().take(r * ch) == pcm@.take(r * ch)
                &&& new_s.current_granule_position
                    == crate::opus_mixer::drift_stats::sat_add_u64(
                    old_s.current_granule_position as nat,
                    r as nat,
                )
                &&& new_s.drift_compensation == old_s.drift_compensation
                &&& new_s.channel_count == old_s.channel_count
                &&& new_s.data() == old_s.data()
                &&& final(self).samples_mixed
                &&& forall|j: int|
                    0 <= j < FRAME_SIZE * 2 ==> #[trigger] final(self).mixed_buffer@[j] == match source_sample(
                        new_s.decoded(),
                        ch,
                        r as nat,
                        j,
                    ) {
                        None => old(self).mixed_buffer@[j] as int,
                        Some(x) => clamp_i32(
                            old(self).mixed_buffer@[j] + contribution(
                                x,
                                old_s.drift_compensation as nat,
                                old(self).active_streams as nat,
                            ),
                        ),
                    }
            },
            forall|i: int|
                0 <= i < old(self).streams@.len() && i != idx ==> #[trigger] final(self).streams@[i]
                    == old(self).streams@[i],
            final(self).stream_finished == old(self).stream_finished,
            final(self).active_streams == old(self).active_streams,
            final(self).start_timestamp == old(self).start_timestamp,
            final(self).target_granule == old(self).target_granule,
            final(self).last_sync_check == old(self).last_sync_check,
            final(self).max_sync_drift == old(self).max_sync_drift,
    {
        if self.stream_finished[idx] {
            return 0;
        }
        proof {
            lemma_finish_one(self.stream_finished@, idx as int, self.stream_finished@.len() as int);
        }
        let frames_taken = self.streams[idx].accept_decoded(pcm, frames);
        let comp = self.streams[idx].drift_compensation;
        let ch = self.streams[idx].decoder_channels() as usize;
        let active = self.active_streams;
        let count = frames_taken * 2;
        let ghost before = self.mixed_buffer@;
        let ghost after = self.streams@;
        let ghost decoded = self.streams@[idx as int].decoded();
        let mut j: usize = 0;
        while j < count
            invariant
                self.wf(),
                self.streams@ == after,
                self.stream_finished == old(self).stream_finished,
                self.active_streams == old(self).active_streams,
                self.start_timestamp == old(self).start_timestamp,
                self.target_granule == old(self).target_granule,
                self.last_sync_check == old(self).last_sync_check,
                self.max_sync_drift == old(self).max_sync_drift,
                decoded == self.streams@[idx as int].decoded(),
                decoded.len() == FRAME_SIZE * (ch as int),
                ch == decode_channels(self.streams@[idx as int].channel_count),
                comp == self.streams@[idx as int].drift_compensation,
                comp <= 2 * UNITY_PPM,
                active == self.active_streams,
                active >= 1,
                idx < self.streams@.len(),
                frames_taken <= FRAME_SIZE,
                count == frames_taken * 2,
                j <= count,
                self.mixed_buffer@.len() == FRAME_SIZE * 2,
                forall|k: int|
                    0 <= k < j ==> #[trigger] self.mixed_buffer@[k] == clamp_i32(
                        before[k] + contribution(
                            source_sample(decoded, ch as nat, frames_taken as nat, k)->0,
                            comp as nat,
                            active as nat,
                        ),
                    ),
                forall|k: int| j <= k < FRAME_SIZE * 2 ==> #[trigger] self.mixed_buffer@[k] == before[k],
            decreases count - j,
        {
            let sample = if ch == 1 {
                self.streams[idx].decoded_buffer[j / 2]
            } else {
                self.streams[idx].decoded_buffer[j]
            };
            let share = scaled_sample(sample, comp, active);
            let mixed = add_clamped(self.mixed_buffer[j], share);
            self.mixed_buffer.set(j, mixed);
            j += 1;
        }
        self.samples_mixed = true;
        frames_taken
    }

    /// Ends the current frame. When some stream contributed, the mix clock
    /// advances by one frame and the frame is ready in `mixed_samples`;
    /// otherwise nothing was mixed.
    pub fn end_frame(&mut self) -> (r: bool)
        requires
            old(self).wf(),
        ensures
            final(self).wf(),
            r == old(self).samples_mixed,
            r ==> final(self).target_granule == crate::opus_mixer::drift_stats::sat_add_u64(
                old(self).target_granule as nat,
                FRAME_SIZE as nat,
            ),
            !r ==> final(self).target_granule == old(self).target_granule,
            final(self).streams == old(self).streams,
            final(self).stream_finished == old(self).stream_finished,
            final(self).active_streams == old(self).active_streams,
            final(self).mixed_buffer == old(self).mixed_buffer,
            final(self).last_sync_check == old(self).last_sync_check,
            final(self).max_sync_drift == old(self).max_sync_drift,
            final(self).start_timestamp == old(self).start_timestamp,
    {
        if self.samples_mixed {
            self.target_granule = self.target_granule.saturating_add(FRAME_SIZE as u64);
        }
        self.samples_mixed
    }

    /// Seeks every stream to the start timestamp, in order, and moves the mix
    /// clock there. Returns, per stream, the channel count of the fresh
    /// decoder to open; a stream sought successfully takes part in the mix
    /// again, one whose seek fails is marked finished (`None`), and the others
    /// are still sought.
    pub fn seek_to_timestamp(&mut self) -> (r: Vec<Option<u16>>)
        requires
            old(self).wf(),
        ensures
            final(self).wf(),
            final(self).streams@.len() == old(self).streams@.len(),
            final(self).target_granule == old(self).start_timestamp,
            final(self).last_sync_check == old(self).start_timestamp,
            final(self).max_sync_drift == old(self).max_sync_drift,
            final(self).start_timestamp == old(self).start_timestamp,
            r@.len() == old(self).streams@.len(),
            forall|i: int|
                0 <= i < old(self).streams@.len() ==> seek_outcome(
                    old(self).streams@[i].data(),
                    #[trigger] final(self).streams@[i],
                    old(self).stream_finished@[i],
                    final(self).stream_finished@[i],
                    old(self).start_timestamp as int,
                    r@[i],
                ),
    {
        let n = self.streams.len();
        let start = self.start_timestamp;
        let mut channels: Vec<Option<u16>> = Vec::new();
        let mut i: usize = 0;
        while i < n
            invariant
                self.wf(),
                n == self.streams@.len(),
                n == old(self).streams@.len(),
                start == old(self).start_timestamp,
                self.start_timestamp == old(self).start_timestamp,
                self.max_sync_drift == old(self).max_sync_drift,
                i <= n,
                channels@.len() == i,
                forall|k: int| i <= k < n ==> #[trigger] self.streams@[k] == old(self).streams@[k],
                forall|k: int|
                    i <= k < n ==> #[trigger] self.stream_finished@[k] == old(self).stream_finished@[k],
                forall|k: int|
                    0 <= k < i ==> seek_outcome(
                        old(self).streams@[k].data(),
                        #[trigger] self.streams@[k],
                        old(self).stream_finished@[k],
                        self.stream_finished@[k],
                        start as int,
                        channels@[k],
                    ),
            decreases n - i,
        {
            let c = self.streams[i].seek_to_timestamp(start);
            match c {
                Ok(c) => {
                    self.restart_stream(i);
                    channels.push(Some(c));
                },
                Err(_) => {
                    self.finish_stream(i);
                    channels.push(None);
                },
            }
            i += 1;
        }
        self.target_granule = start;
        self.last_sync_check = start;
        channels
    }

    /// Once per sync interval on the mix clock: records the spread between the
    /// unfinished streams and gives each of them the compensation that pulls
    /// it toward their average position.
    fn check_sync(&mut self)
        requires
            old(self).wf(),
        ensures
            final(self).wf(),
            Self::sync_effect(&*old(self), &*final(self)),
            final(self).target_granule == old(self).target_granule,
            final(self).mixed_buffer == old(self).mixed_buffer,
            final(self).samples_mixed == old(self).samples_mixed,
            final(self).start_timestamp == old(self).start_timestamp,
            final(self).sync_interval == old(self).sync_interval,
    {
        if self.target_granule < self.last_sync_check || self.target_granule
            - self.last_sync_check < self.sync_interval {
            return ;
        }
        let n = self.streams.len();
        let mut total: u128 = 0;
        let mut count: usize = 0;
        let mut min_pos: u64 = u64::MAX;
        let mut max_pos: u64 = 0;
        let mut i: usize = 0;
        while i < n
            invariant
                n == self.streams@.len(),
                self.wf(),
                i <= n,
                total == position_sum(self.streams@, self.stream_finished@, i as int),
                count == unfinished_count(self.stream_finished@, i as int),
                min_pos == position_min(self.streams@, self.stream_finished@, i as int),
                max_pos == position_max(self.streams@, self.stream_finished@, i as int),
                total <= count * (u64::MAX as int),
                count <= i,
                count > 0 ==> min_pos <= max_pos,
            decreases n - i,
        {
            if !self.stream_finished[i] {
                let pos = self.streams[i].current_granule_position;
                proof {
                    assert(total + pos <= (count + 1) * (u64::MAX as int)) by (nonlinear_arith)
                        requires
                            total <= count * (u64::MAX as int),
                            pos <= u64::MAX,
                    ;
                }
                total = total + pos as u128;
                count = count + 1;
                if pos < min_pos {
                    min_pos = pos;
                }
                if pos > max_pos {
                    max_pos = pos;
                }
            }
            i += 1;
        }
        if count > 1 {
            proof {
                assert((total as int) / (count as int) <= u64::MAX) by (nonlinear_arith)
                    requires
                        total <= count * (u64::MAX as int),
                        count > 0,
                ;
            }
            let avg = (total / (count as u128)) as u64;
            let span = max_pos - min_pos;
            if span > self.max_sync_drift {
                self.max_sync_drift = span;
            }
            let elapsed = self.target_granule - self.last_sync_check;
            let ghost before = *self;
            let mut j: usize = 0;
            while j < n
                invariant
                    n == self.streams@.len(),
                    n == before.streams@.len(),
                    j <= n,
                    before.wf(),
                    self.wf(),
                    self.stream_finished == before.stream_finished,
                    self.active_streams == before.active_streams,
                    self.mixed_buffer == before.mixed_buffer,
                    self.samples_mixed == before.samples_mixed,
                    self.start_timestamp == before.start_timestamp,
                    self.target_granule == before.target_granule,
                    self.last_sync_check == before.last_sync_check,
                    self.sync_interval == before.sync_interval,
                    self.max_sync_drift == before.max_sync_drift,
                    forall|k: int|
                        0 <= k < n ==> same_media(&#[trigger] self.streams@[k], &before.streams@[k]),
                    forall|k: int|
                        0 <= k < j ==> #[trigger] self.streams@[k].drift_compensation == if before.stream_finished@[k] {
                            before.streams@[k].drift_compensation as nat
                        } else {
                            compensation_for(
                                before.streams@[k].current_granule_position as nat,
                                avg as nat,
                                elapsed as nat,
                            )
                        },
                    forall|k: int|
                        j <= k < n ==> #[trigger] self.streams@[k] == before.streams@[k],
                    forall|k: int|
                        0 <= k < n && before.stream_finished@[k] ==> #[trigger] self.streams@[k]
                            == before.streams@[k],
                decreases n - j,
            {
                if !self.stream_finished[j] {
                    sync_stream(&mut self.streams[j], avg, elapsed);
                }
                j += 1;
            }
        }
        self.last_sync_check = self.target_granule;
    }
}

/// The largest drift observed between the streams never decreases: a
/// synchronization check can only raise it, and work on a single stream
/// leaves it as it was.
pub proof fn lemma_max_drift_monotone(old: AudioMixer, new: AudioMixer, idx: usize)
    ensures
        AudioMixer::sync_effect(&old, &new) ==> new.max_sync_drift >= old.max_sync_drift,
        AudioMixer::frame_step(&old, &new, idx) ==> new.max_sync_drift == old.max_sync_drift,
{
}

/// A compensation set at a check at most one sync interval after the last
/// one keeps the stream's gain within 2 % of unity.
pub proof fn lemma_compensation_window(pos: nat, avg: nat, elapsed: nat)
    requires
        elapsed <= SYNC_INTERVAL,
    ensures
        UNITY_PPM - 20000 <= compensation_for(pos, avg, elapsed) <= UNITY_PPM + 20000,
{
    lemma_div_is_ordered((elapsed * 5) as int, (SYNC_INTERVAL * 5) as int, 12);
}

/// A seek lands on a position fixed by the stream's bytes and the target
/// alone, never past the target: a stream that has already decoded and is
/// sought back to a timestamp resumes at the same granule position as any
/// other seek of the same bytes to that timestamp.
pub proof fn lemma_reseek_same_position(data: Seq<u8>, a: AudioStream, b: AudioStream, target: int)
    requires
        target >= 0,
        landed_at(data, a, target),
        landed_at(data, b, target),
    ensures
        a.current_granule_position == b.current_granule_position,
        a.current_granule_position <= target,
{
    crate::opus_mixer::ogg_page::lemma_seek_point_dominated(data, target);
}

} // verus!
