use opus_mixer::debug::DebugSwitch;
use opus_mixer::opus_mixer::ogg_page::{find_capture, find_seek_point, is_capture_at, read_le_i64, read_le_u64};
use opus_mixer::source::{CommandQueue, PendingOperation};
use opus_mixer::{
    is_debug_enabled, is_opus_header, is_opus_tags, set_debug, AudioStream, DriftStats, PacketStep,
    SourceType, StreamError,
};

#[test]
fn header_magic() {
    assert!(is_opus_header(b"OpusHead\x01\x02"));
    assert!(is_opus_header(b"OpusHead"));
    assert!(!is_opus_header(b"OpusHea"));
    assert!(!is_opus_header(b"OpusTags"));
    assert!(is_opus_tags(b"OpusTags and more"));
    assert!(!is_opus_tags(b"opusTags"));
    assert!(!is_opus_tags(b""));
}

#[test]
fn packets_drive_the_header_state() {
    let mut s = AudioStream::new(Vec::new());
    assert_eq!(s.take_packet(Some(b"junk".to_vec())), Err(StreamError::InvalidHeader));
    assert!(!s.header_processed);
    let mut head = b"OpusHead".to_vec();
    head.extend_from_slice(&[1, 2, 0, 0]);
    assert_eq!(s.take_packet(Some(head)), Ok(PacketStep::Header));
    assert!(s.header_processed);
    assert_eq!(s.get_channel_count(), 2);
    assert_eq!(s.get_decoded_samples().len(), 1920);
    assert_eq!(s.take_packet(Some(b"OpusHead".to_vec())), Err(StreamError::InvalidHeader));
    assert!(!s.comments_processed);
    assert_eq!(s.take_packet(Some(b"OpusTags".to_vec())), Ok(PacketStep::OpenDecoder(2)));
    assert!(s.headers_done());
    assert_eq!(s.take_packet(Some(vec![9, 9])), Ok(PacketStep::Audio(vec![9, 9])));
    assert_eq!(s.take_packet(None), Ok(PacketStep::EndOfStream));
}

#[test]
fn unsupported_channel_count_decodes_as_stereo() {
    let mut s = AudioStream::new(Vec::new());
    let mut head = b"OpusHead".to_vec();
    head.extend_from_slice(&[1, 6]);
    assert_eq!(s.take_packet(Some(head)), Ok(PacketStep::Header));
    assert_eq!(s.get_channel_count(), 6);
    assert_eq!(s.decoder_channels(), 2);
    assert_eq!(s.take_packet(Some(b"OpusTags".to_vec())), Ok(PacketStep::OpenDecoder(2)));
}

#[test]
fn short_identification_header_keeps_mono() {
    let mut s = AudioStream::new(Vec::new());
    assert_eq!(s.take_packet(Some(b"OpusHead\x01".to_vec())), Ok(PacketStep::Header));
    assert_eq!(s.get_channel_count(), 1);
    assert_eq!(s.get_decoded_samples().len(), 960);
}

#[test]
fn accepted_frames_are_capped() {
    let mut s = AudioStream::new(Vec::new());
    let pcm: Vec<i16> = (0..3000).map(|i| i as i16).collect();
    assert_eq!(s.accept_decoded(&pcm, 2000), 960);
    assert_eq!(s.current_granule_position, 960);
    assert_eq!(&s.get_decoded_samples()[..960], &pcm[..960]);
    assert_eq!(s.accept_decoded(&pcm[..100], 960), 100);
    assert_eq!(s.current_granule_position, 1060);
    assert_eq!(s.total_samples_decoded, 1060);
}

#[test]
fn page_helpers() {
    let mut data = vec![0u8; 64];
    data[10..14].copy_from_slice(b"OggS");
    data[16..24].copy_from_slice(&(-1i64).to_le_bytes());
    assert!(is_capture_at(&data, 10));
    assert!(!is_capture_at(&data, 11));
    assert!(!is_capture_at(&data, 62));
    assert_eq!(find_capture(&data, 0, 64), Some(10));
    assert_eq!(find_capture(&data, 11, 64), None);
    assert_eq!(find_capture(&data, 0, 10), None);
    assert_eq!(read_le_i64(&data, 16), -1);
    assert_eq!(read_le_u64(&data, 16), u64::MAX);
    let v: i64 = 0x0102_0304_0506_0708;
    data[30..38].copy_from_slice(&v.to_le_bytes());
    assert_eq!(read_le_i64(&data, 30), v);
    data[40..48].copy_from_slice(&i64::MIN.to_le_bytes());
    assert_eq!(read_le_i64(&data, 40), i64::MIN);
}

#[test]
fn small_stream_seeks_to_start() {
    let data = vec![1u8; 4000];
    assert_eq!(find_seek_point(&data, 100_000), Some((0, 0)));
}

#[test]
fn bisection_settles_at_or_below_target() {
    // Pages of 1000 bytes, each ending 960 samples later than the last.
    let mut data = vec![0u8; 100_000];
    for k in 0..100usize {
        let at = k * 1000;
        data[at..at + 4].copy_from_slice(b"OggS");
        let g = ((k + 1) * 960) as i64;
        data[at + 6..at + 14].copy_from_slice(&g.to_le_bytes());
    }
    // The search settles on the latest probed page at or below the target.
    assert_eq!(find_seek_point(&data, 48000), Some((47000, 46080)));
    assert_eq!(find_seek_point(&data, 0), Some((0, 0)));
    assert_eq!(find_seek_point(&data, 46080), Some((47000, 46080)));
}

#[test]
fn drift_statistics() {
    let mut st = DriftStats::new();
    assert_eq!(st.max_compensation, 1_000_000);
    st.update_drift(120);
    st.update_drift(30);
    assert_eq!(st.max_drift, 120);
    assert_eq!(st.total_drift, 150);
    assert_eq!(st.drift_samples, 2);
    st.update_compensation(1_000_050);
    assert_eq!(st.compensation_samples, 0);
    st.update_compensation(985_000);
    assert_eq!(st.compensation_samples, 1);
    assert_eq!(st.max_compensation, 1_015_000);
    assert_eq!(st.total_compensation, 985_000);
    st.update_compensation(1_010_000);
    assert_eq!(st.max_compensation, 1_015_000);
    assert_eq!(st.total_compensation, 1_995_000);
    st.update_compensation(u32::MAX);
    assert_eq!(st.max_compensation, u32::MAX);
    assert_eq!(st.compensation_samples, 3);
    st.update_drift(u64::MAX);
    assert_eq!(st.total_drift, u64::MAX);
}

#[test]
fn commands_wait_for_initialization() {
    let mut q = CommandQueue::new();
    assert!(q.require_initialized().is_err());
    assert!(!q.request(PendingOperation::Start));
    assert!(!q.request(PendingOperation::SetFrequency(880.0f32.to_bits())));
    let replay = q.mark_initialized();
    assert_eq!(
        replay,
        vec![PendingOperation::Start, PendingOperation::SetFrequency(880.0f32.to_bits())]
    );
    assert!(q.pending_operations.is_empty());
    assert!(q.request(PendingOperation::Start));
    assert!(q.pending_operations.is_empty());
    assert!(q.require_initialized().is_ok());
}

#[test]
fn debug_switch() {
    let mut sw = DebugSwitch::new();
    assert!(!is_debug_enabled(&sw));
    set_debug(&mut sw, true);
    assert!(is_debug_enabled(&sw));
    set_debug(&mut sw, false);
    assert!(!is_debug_enabled(&sw));
    assert_ne!(SourceType::Oscillator, SourceType::OpusPlayer);
}
