use vstd::prelude::*;

use crate::opus_mixer::drift_stats::{DriftStats, UNITY_PPM};
use crate::opus_mixer::ogg_io::{open_reader, read_packet, seek_reader, StreamReader};
use crate::opus_mixer::ogg_page::{find_seek_point, seek_point};
use crate::opus_mixer::{
    has_prefix, is_opus_header, is_opus_tags, opus_head_magic, opus_tags_magic, FRAME_SIZE,
};

verus! {

/// Why a stream could not go on.
#[derive(Debug, Clone, Copy, PartialEq, Eq, Structural)]
pub enum StreamError {
    /// A page was malformed or a packet truncated.
    OggParse,
    /// A packet could not be decoded.
    OpusDecoder,
    /// The byte stream could not be repositioned, or a page header was cut off.
    Seek,
    /// A header packet lacked its magic, or the stream ended before both
    /// Opus headers were seen.
    InvalidHeader,
}

/// What reading one packet of a stream led to.
#[derive(Debug, PartialEq)]
pub enum PacketStep {
    /// The `OpusHead` identification header was parsed.
    Header,
    /// The `OpusTags` comment header was parsed: a decoder for this many
    /// channels (1 or 2) is needed from now on.
    OpenDecoder(u16),
    /// An audio packet, to be decoded by the caller.
    Audio(Vec<u8>),
    /// The physical stream has ended.
    EndOfStream,
}

/// The channel layout the decoder uses for a header's channel count: mono for
/// one channel, stereo for anything else.
pub open spec fn decode_channels(channel_count: u16) -> nat {
    if channel_count == 1 {
        1
    } else {
        2
    }
}

/// The part of a stream's state that reading a packet leaves alone.
pub open spec fn same_position(a: &AudioStream, b: &AudioStream) -> bool {
    &&& a.data() == b.data()
    &&& a.total_samples_decoded == b.total_samples_decoded
    &&& a.current_granule_position == b.current_granule_position
    &&& a.drift_compensation == b.drift_compensation
    &&& a.drift_stats == b.drift_stats
}

/// One Opus-in-Ogg source: the bytes of the file, a demuxer over them, the
/// header state, the last decoded frame and the stream's drift state.
/// Decoding itself is done by the caller, who is told when to open a decoder
/// and which packets to decode. The bytes are kept beside the demuxer (which
/// holds its own copy) so that the bisection seek can read page headers.
pub struct AudioStream {
    pub data: Vec<u8>,
    pub packet_reader: StreamReader,
    pub header_processed: bool,
    pub comments_processed: bool,
    pub decoded_buffer: Vec<i16>,
    pub total_samples_decoded: u64,
    pub current_granule_position: u64,
    /// Gain applied when mixing, in parts per million of unity.
    pub drift_compensation: u32,
    pub drift_stats: DriftStats,
    /// Channel count from the identification header.
    pub channel_count: u16,
}

impl AudioStream {
    /// The bytes of the whole stream.
    pub open spec fn data(&self) -> Seq<u8> {
        self.data@
    }

    /// The scratch holding the last decoded frame, interleaved.
    pub open spec fn decoded(&self) -> Seq<i16> {
        self.decoded_buffer@
    }

    pub open spec fn wf(&self) -> bool {
        &&& self.decoded_buffer@.len() == FRAME_SIZE * decode_channels(self.channel_count)
        &&& self.drift_compensation <= 2 * UNITY_PPM
    }

    /// A stream over the bytes `data`, before its headers have been read.
    pub fn new(data: Vec<u8>) -> (r: Self)
        ensures
            r.wf(),
            r.data() == data@,
            !r.header_processed,
            !r.comments_processed,
            r.total_samples_decoded == 0,
            r.current_granule_position == 0,
            r.drift_compensation == UNITY_PPM,
            r.drift_stats == DriftStats::new_spec(),
            r.channel_count == 1,
    {
        let reader = open_reader(data.clone());
        AudioStream {
            data,
            packet_reader: reader,
            header_processed: false,
            comments_processed: false,
            decoded_buffer: zeroed(FRAME_SIZE),
            total_samples_decoded: 0,
            current_granule_position: 0,
            drift_compensation: UNITY_PPM,
            drift_stats: DriftStats::new(),
            channel_count: 1,
        }
    }

    /// Number of channels in each decoded frame (1 or 2).
    pub fn decoder_channels(&self) -> (r: u16)
        ensures
            r == decode_channels(self.channel_count),
    {
        if self.channel_count == 1 {
            1
        } else {
            2
        }
    }

    /// The channel count from the identification header.
    pub fn get_channel_count(&self) -> (r: u16)
        ensures
            r == self.channel_count,
    {
        self.channel_count
    }

    /// Both Opus headers have been parsed, so packets now carry audio.
    pub fn headers_done(&self) -> (r: bool)
        ensures
            r == (self.header_processed && self.comments_processed),
    {
        self.header_processed && self.comments_processed
    }

    /// The last decoded frame, interleaved per the decoder's channel count.
    pub fn get_decoded_samples(&self) -> (r: &[i16])
        ensures
            r@ == self.decoded(),
    {
        self.decoded_buffer.as_slice()
    }

    /// Acts on one packet read from the stream (`None`: the stream ended).
    /// The first packet must be an `OpusHead` identification header and the
    /// next an `OpusTags` comment header; a packet without the expected magic
    /// is an `InvalidHeader` error. After both, every packet is audio.
    pub fn take_packet(&mut self, packet: Option<Vec<u8>>) -> (r: Result<PacketStep, StreamError>)
        requires
            old(self).wf(),
        ensures
            final(self).wf(),
            same_position(final(self), old(self)),
            match packet {
                None => r == Ok::<PacketStep, StreamError>(PacketStep::EndOfStream) && *final(self)
                    == *old(self),
                Some(p) => if !old(self).header_processed {
                    if has_prefix(p@, opus_head_magic()) {
                        &&& r == Ok::<PacketStep, StreamError>(PacketStep::Header)
                        &&& final(self).header_processed
                        &&& final(self).comments_processed == old(self).comments_processed
                        &&& final(self).channel_count == if p@.len() >= 10 {
                            p@[9] as u16
                        } else {
                            old(self).channel_count
                        }
                    } else {
                        r == Err::<PacketStep, StreamError>(StreamError::InvalidHeader)
                            && *final(self) == *old(self)
                    }
                } else if !old(self).comments_processed {
                    if has_prefix(p@, opus_tags_magic()) {
                        &&& r == Ok::<PacketStep, StreamError>(
                            PacketStep::OpenDecoder(decode_channels(old(self).channel_count) as u16),
                        )
                        &&& final(self).header_processed
                        &&& final(self).comments_processed
                        &&& final(self).channel_count == old(self).channel_count
                        &&& final(self).decoded() == old(self).decoded()
                    } else {
                        r == Err::<PacketStep, StreamError>(StreamError::InvalidHeader)
                            && *final(self) == *old(self)
                    }
                } else {
                    &&& r matches Ok(PacketStep::Audio(q)) && q@ == p@
                    &&& *final(self) == *old(self)
                },
            },
    {
        match packet {
            None => Ok(PacketStep::EndOfStream),
            Some(p) => {
                if !self.header_processed {
                    if is_opus_header(p.as_slice()) {
                        if p.len() >= 10 {
                            self.channel_count = p[9] as u16;
                            let n = FRAME_SIZE * (self.decoder_channels() as usize);
                            self.decoded_buffer = zeroed(n);
                        }
                        self.header_processed = true;
                        Ok(PacketStep::Header)
                    } else {
                        Err(StreamError::InvalidHeader)
                    }
                } else if !self.comments_processed {
                    if is_opus_tags(p.as_slice()) {
                        self.comments_processed = true;
                        Ok(PacketStep::OpenDecoder(self.decoder_channels()))
                    } else {
                        Err(StreamError::InvalidHeader)
                    }
                } else {
                    Ok(PacketStep::Audio(p))
                }
            },
        }
    }

    /// Reads the next packet from the demuxer and acts on it as `take_packet`
    /// does. A malformed page gives `OggParse`; a packet without the expected
    /// header magic gives `InvalidHeader`.
    pub fn process_next_packet(&mut self) -> (r: Result<PacketStep, StreamError>)
        requires
            old(self).wf(),
        ensures
            final(self).wf(),
            same_position(final(self), old(self)),
            old(self).header_processed ==> final(self).header_processed,
            old(self).comments_processed ==> final(self).comments_processed,
            old(self).header_processed ==> final(self).channel_count == old(self).channel_count,
            old(self).header_processed ==> final(self).decoded() == old(self).decoded(),
            r matches Err(e) ==> e == StreamError::OggParse || (e == StreamError::InvalidHeader
                && !(old(self).header_processed && old(self).comments_processed)
                && final(self).header_processed == old(self).header_processed
                && final(self).comments_processed == old(self).comments_processed),
            r matches Ok(PacketStep::Audio(_)) ==> old(self).header_processed
                && old(self).comments_processed,
            r matches Ok(PacketStep::OpenDecoder(c)) ==> c == decode_channels(
                final(self).channel_count,
            ) && final(self).header_processed && final(self).comments_processed,
    {
        match read_packet(&mut self.packet_reader) {
            Err(_) => Err(StreamError::OggParse),
            Ok(packet) => self.take_packet(packet),
        }
    }

    /// Reads one packet and drops it. Returns whether the stream has nothing
    /// more to give: it ended, or its next page is malformed.
    pub fn skip_packet(&mut self) -> (r: bool)
        requires
            old(self).wf(),
        ensures
            final(self).wf(),
            final(self).data == old(self).data,
            final(self).decoded_buffer == old(self).decoded_buffer,
            final(self).header_processed == old(self).header_processed,
            final(self).comments_processed == old(self).comments_processed,
            final(self).total_samples_decoded == old(self).total_samples_decoded,
            final(self).current_granule_position == old(self).current_granule_position,
            final(self).drift_compensation == old(self).drift_compensation,
            final(self).drift_stats == old(self).drift_stats,
            final(self).channel_count == old(self).channel_count,
    {
        match read_packet(&mut self.packet_reader) {
            Ok(Some(_)) => false,
            Ok(None) => true,
            Err(_) => true,
        }
    }

    /// Takes a frame the caller decoded from the last audio packet: `frames`
    /// samples per channel, interleaved in `pcm`. At most one frame and at most
    /// what `pcm` holds is taken; the stream's position advances by that much.
    /// Returns the number of samples per channel taken.
    pub fn accept_decoded(&mut self, pcm: &[i16], frames: usize) -> (r: usize)
        requires
            old(self).wf(),
        ensures
            final(self).wf(),
            r == min3(frames as nat, FRAME_SIZE as nat, pcm@.len() / decode_channels(
                old(self).channel_count,
            )),
            final(self).decoded().take(r * decode_channels(old(self).channel_count)) == pcm@.take(
                r * decode_channels(old(self).channel_count),
            ),
            final(self).decoded().len() == old(self).decoded().len(),
            final(self).total_samples_decoded == crate::opus_mixer::drift_stats::sat_add_u64(
                old(self).total_samples_decoded as nat,
                r as nat,
            ),
            final(self).current_granule_position == crate::opus_mixer::drift_stats::sat_add_u64(
                old(self).current_granule_position as nat,
                r as nat,
            ),
            final(self).data() == old(self).data(),
            final(self).header_processed == old(self).header_processed,
            final(self).comments_processed == old(self).comments_processed,
            final(self).channel_count == old(self).channel_count,
            final(self).drift_compensation == old(self).drift_compensation,
            final(self).drift_stats == old(self).drift_stats,
    {
        let ch = self.decoder_channels() as usize;
        let mut n = frames;
        if n > FRAME_SIZE {
            n = FRAME_SIZE;
        }
        if n > pcm.len() / ch {
            n = pcm.len() / ch;
        }
        proof {
            let len = pcm@.len() as int;
            assert(n * ch <= len && n * ch <= FRAME_SIZE * ch) by (nonlinear_arith)
                requires
                    1 <= ch <= 2,
                    n <= len / (ch as int),
                    n <= FRAME_SIZE,
                    len >= 0,
            ;
        }
        let count = n * ch;
        let mut i: usize = 0;
        while i < count
            invariant
                count == n * ch,
                n <= FRAME_SIZE,
                n <= pcm@.len() / (ch as nat),
                ch == decode_channels(self.channel_count),
                count <= pcm@.len(),
                self.decoded_buffer@.len() == FRAME_SIZE * (ch as int),
                self.data == old(self).data,
                self.header_processed == old(self).header_processed,
                self.comments_processed == old(self).comments_processed,
                self.channel_count == old(self).channel_count,
                self.drift_compensation == old(self).drift_compensation,
                self.drift_stats == old(self).drift_stats,
                self.total_samples_decoded == old(self).total_samples_decoded,
                self.current_granule_position == old(self).current_granule_position,
                i <= count,
                forall|j: int| 0 <= j < i ==> self.decoded_buffer@[j] == pcm@[j],
            decreases count - i,
        {
            self.decoded_buffer.set(i, pcm[i]);
            i += 1;
        }
        self.total_samples_decoded = self.total_samples_decoded.saturating_add(n as u64);
        self.current_granule_position = self.current_granule_position.saturating_add(n as u64);
        assert(self.decoded_buffer@.take(count as int) =~= pcm@.take(count as int));
        n
    }

    /// Positions the stream at the last page, found by bisection over its
    /// bytes, whose granule position does not pass `target` (in 48 kHz
    /// samples): starts a fresh demuxer over those bytes, parses both headers
    /// again, then moves to that page
    /// and takes its granule position as the stream's position. On success
    /// returns the channel count for the fresh decoder the caller must open.
    pub fn seek_to_timestamp(&mut self, target: u64) -> (r: Result<u16, StreamError>)
        requires
            old(self).wf(),
        ensures
            final(self).wf(),
            final(self).data() == old(self).data(),
            final(self).drift_compensation == old(self).drift_compensation,
            final(self).drift_stats == old(self).drift_stats,
            seek_point(old(self).data(), target as int) is None <==> r == Err::<u16, StreamError>(
                StreamError::Seek,
            ),
            r matches Err(e) ==> e == StreamError::Seek || e == StreamError::InvalidHeader || e
                == StreamError::OggParse,
            r is Ok ==> final(self).current_granule_position <= target,
            r is Ok ==> {
                &&& seek_point(old(self).data(), target as int) matches Some((b, g))
                    && final(self).current_granule_position == g
                    && final(self).total_samples_decoded == g
                    && crate::opus_mixer::ogg_page::is_seek_candidate(old(self).data(), b, g)
                &&& final(self).header_processed
                &&& final(self).comments_processed
                &&& r == Ok::<u16, StreamError>(decode_channels(final(self).channel_count) as u16)
            },
    {
        let point = find_seek_point(self.data.as_slice(), target);
        let (best_position, last_granule) = match point {
            None => {
                return Err(StreamError::Seek);
            },
            Some(found) => found,
        };
        assert(seek_point(self.data(), target as int) == Some(
            (best_position as int, last_granule as int),
        ));
        self.packet_reader = open_reader(self.data.clone());
        self.header_processed = false;
        self.comments_processed = false;
        let budget = self.data.len();
        let mut tries: usize = 0;
        while !(self.header_processed && self.comments_processed)
            invariant
                self.wf(),
                self.data() == old(self).data(),
                self.drift_compensation == old(self).drift_compensation,
                self.drift_stats == old(self).drift_stats,
                budget == self.data@.len(),
                tries <= budget,
                seek_point(self.data(), target as int) == Some(
                    (best_position as int, last_granule as int),
                ),
                last_granule >= 0,
            decreases budget - tries,
        {
            if tries == budget {
                return Err(StreamError::InvalidHeader);
            }
            tries += 1;
            match self.process_next_packet() {
                Err(e) => {
                    return Err(e);
                },
                Ok(PacketStep::EndOfStream) => {
                    return Err(StreamError::InvalidHeader);
                },
                Ok(_) => {},
            }
        }
        if seek_reader(&mut self.packet_reader, best_position as u64).is_err() {
            return Err(StreamError::Seek);
        }
        proof {
            crate::opus_mixer::ogg_page::lemma_seek_point_dominated(self.data(), target as int);
        }
        self.total_samples_decoded = last_granule as u64;
        self.current_granule_position = last_granule as u64;
        Ok(self.decoder_channels())
    }
}

/// The smallest of three naturals.
pub open spec fn min3(a: nat, b: nat, c: nat) -> nat {
    if a <= b && a <= c {
        a
    } else if b <= c {
        b
    } else {
        c
    }
}

/// `n` zero samples.
fn zeroed(n: usize) -> (r: Vec<i16>)
    ensures
        r@.len() == n,
{
    let mut v: Vec<i16> = Vec::new();
    let mut i: usize = 0;
    while i < n
        invariant
            i <= n,
            v@.len() == i,
        decreases n - i,
    {
        v.push(0);
        i += 1;
    }
    v
}

} // verus!
