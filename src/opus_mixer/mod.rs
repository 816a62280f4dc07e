use vstd::prelude::*;

pub mod audio_mixer;
pub mod audio_stream;
pub mod drift_stats;
pub mod ogg_io;
pub mod ogg_page;

verus! {

/// Output sample rate in Hz; granule positions count samples at this rate.
pub const SAMPLE_RATE: u32 = 48000;

/// Number of output channels (interleaved stereo).
pub const CHANNELS: u16 = 2;

/// Samples per channel in one 20 ms frame at 48 kHz.
pub const FRAME_SIZE: usize = 960;

/// The magic bytes `OpusHead` that open an identification header.
pub open spec fn opus_head_magic() -> Seq<u8> {
    seq![0x4fu8, 0x70u8, 0x75u8, 0x73u8, 0x48u8, 0x65u8, 0x61u8, 0x64u8]
}

/// The magic bytes `OpusTags` that open a comment header.
pub open spec fn opus_tags_magic() -> Seq<u8> {
    seq![0x4fu8, 0x70u8, 0x75u8, 0x73u8, 0x54u8, 0x61u8, 0x67u8, 0x73u8]
}

/// `packet` starts with the bytes of `magic`.
pub open spec fn has_prefix(packet: Seq<u8>, magic: Seq<u8>) -> bool {
    packet.len() >= magic.len() && packet.take(magic.len() as int) == magic
}

/// Whether `packet` is an Opus identification header (starts with `OpusHead`).
pub fn is_opus_header(packet: &[u8]) -> (r: bool)
    ensures
        r == has_prefix(packet@, opus_head_magic()),
{
    let r = packet.len() >= 8 && packet[0] == 0x4f && packet[1] == 0x70 && packet[2] == 0x75
        && packet[3] == 0x73 && packet[4] == 0x48 && packet[5] == 0x65 && packet[6] == 0x61
        && packet[7] == 0x64;
    proof {
        if r {
            assert(packet@.take(8) =~= opus_head_magic());
        } else if packet@.len() >= 8 {
            assert(packet@.take(8) != opus_head_magic()) by {
                let t = packet@.take(8);
                let m = opus_head_magic();
                if t == m {
                    assert(t[0] == m[0] && t[1] == m[1] && t[2] == m[2] && t[3] == m[3]);
                    assert(t[4] == m[4] && t[5] == m[5] && t[6] == m[6] && t[7] == m[7]);
                }
            }
        }
    }
    r
}

/// Whether `packet` is an Opus comment header (starts with `OpusTags`).
pub fn is_opus_tags(packet: &[u8]) -> (r: bool)
    ensures
        r == has_prefix(packet@, opus_tags_magic()),
{
    let r = packet.len() >= 8 && packet[0] == 0x4f && packet[1] == 0x70 && packet[2] == 0x75
        && packet[3] == 0x73 && packet[4] == 0x54 && packet[5] == 0x61 && packet[6] == 0x67
        && packet[7] == 0x73;
    proof {
        if r {
            assert(packet@.take(8) =~= opus_tags_magic());
        } else if packet@.len() >= 8 {
            assert(packet@.take(8) != opus_tags_magic()) by {
                let t = packet@.take(8);
                let m = opus_tags_magic();
                if t == m {
                    assert(t[0] == m[0] && t[1] == m[1] && t[2] == m[2] && t[3] == m[3]);
                    assert(t[4] == m[4] && t[5] == m[5] && t[6] == m[6] && t[7] == m[7]);
                }
            }
        }
    }
    r
}

} // verus!
