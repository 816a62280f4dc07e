use ogg::writing::{PacketWriteEndInfo, PacketWriter};
use opus_mixer::opus_mixer::audio_mixer::{add_clamped, compensation, scaled_sample};
use opus_mixer::{AudioMixer, AudioStream, OpusSource, StreamAction, StreamError};

fn opus_head(channels: u8) -> Vec<u8> {
    let mut h = b"OpusHead".to_vec();
    h.extend_from_slice(&[1, channels, 0x38, 0x01, 0x80, 0xbb, 0, 0, 0, 0, 0]);
    h
}

fn opus_tags() -> Vec<u8> {
    let mut t = b"OpusTags".to_vec();
    t.extend_from_slice(&[4, 0, 0, 0]);
    t.extend_from_slice(b"test");
    t.extend_from_slice(&[0, 0, 0, 0]);
    t
}

/// An Ogg stream with both Opus headers and `packets` audio packets of
/// `payload` bytes, one packet per page, each page ending a 20 ms frame.
fn build_file(channels: u8, packets: usize, payload: usize) -> Vec<u8> {
    let mut w = PacketWriter::new(Vec::new());
    w.write_packet(opus_head(channels), 7, PacketWriteEndInfo::EndPage, 0).unwrap();
    w.write_packet(opus_tags(), 7, PacketWriteEndInfo::EndPage, 0).unwrap();
    for i in 0..packets {
        let info = if i + 1 == packets {
            PacketWriteEndInfo::EndStream
        } else {
            PacketWriteEndInfo::EndPage
        };
        let body = vec![(i % 200) as u8 + 1; payload];
        w.write_packet(body, 7, info, ((i + 1) * 960) as u64).unwrap();
    }
    w.into_inner()
}

/// Stands in for the Opus decoder: `frames` samples per channel, derived
/// from the packet's first byte, or the constant `level` when it is set.
fn synth(packet: &[u8], channels: usize, frames: usize, level: Option<i16>) -> Vec<i16> {
    let mut pcm = Vec::with_capacity(frames * channels);
    for i in 0..frames {
        for c in 0..channels {
            let v = match level {
                Some(l) => l,
                None => (packet[0] as i16) * 10 + (i % 50) as i16 + (c as i16) * 3,
            };
            pcm.push(v);
        }
    }
    pcm
}

/// One frame of the mixer's cycle, decoding with `synth`. Returns whether a
/// frame is ready.
fn mix_frame(
    m: &mut AudioMixer,
    channels: &mut Vec<u16>,
    frames_for: &dyn Fn(usize) -> usize,
    level: Option<i16>,
) -> bool {
    if !m.begin_frame() {
        return false;
    }
    for idx in 0..m.stream_count() {
        match m.next_action(idx) {
            StreamAction::Idle => {}
            StreamAction::OpenDecoder(c) => channels[idx] = c,
            StreamAction::Decode(packet) => {
                let c = channels[idx].max(1) as usize;
                let frames = frames_for(idx);
                let pcm = synth(&packet, c, frames, level);
                m.mix_decoded(idx, &pcm, frames);
            }
        }
    }
    m.end_frame()
}

/// One producer turn asked for `n` samples.
fn process(src: &mut OpusSource, n: usize, channels: &mut Vec<u16>, level: Option<i16>) -> usize {
    let frames = src.frames_to_process(n);
    let mut total = 0;
    for _ in 0..frames {
        let ready = match src.mixer_mut() {
            Some(m) => mix_frame(m, channels, &|_| 960, level),
            None => false,
        };
        if !ready {
            break;
        }
        let (written, whole) = src.push_frame();
        total += written;
        if !whole {
            break;
        }
    }
    total
}

#[test]
fn empty_mix_ends_at_once() {
    let mut m = AudioMixer::new(Vec::new(), 0);
    assert!(!m.begin_frame());
    assert!(!m.is_active());
    let mut src = OpusSource::new(48000);
    src.load_files(Vec::new());
    src.start();
    let mut channels: Vec<u16> = Vec::new();
    assert_eq!(process(&mut src, 1024, &mut channels, None), 0);
}

#[test]
fn stopped_or_empty_producer_writes_nothing() {
    let mut src = OpusSource::new(48000);
    assert_eq!(src.frames_to_process(960), 0);
    src.start();
    assert_eq!(src.frames_to_process(960), 0);
    assert!(!src.is_file_loaded());
    assert!(src.reset().is_none());
}

#[test]
fn single_mono_stream_fills_both_channels() {
    let file = build_file(1, 50, 40);
    let mut src = OpusSource::new(48000);
    src.load_file(AudioStream::new(file));
    src.start();
    assert!(src.is_running());
    let mut channels = vec![0u16];
    let mut received: Vec<i32> = Vec::new();
    let mut total = 0;
    for _ in 0..50 {
        total += process(&mut src, 960, &mut channels, None);
        received.extend(src.ring_buffer_mut().consume(usize::MAX));
    }
    // Two turns go to the headers, and the packet read after the comment
    // header is passed over; every other turn mixes one frame.
    assert_eq!(total, 48 * 1920);
    assert_eq!(received.len(), total);
    assert_eq!(channels, vec![1]);
    for pair in received.chunks(2) {
        assert_eq!(pair[0], pair[1]);
    }
    // With one stream at unity gain each sample passes through unchanged:
    // the first mixed frame is the second audio packet (first byte 2).
    assert_eq!(received[0], 20);
    assert_eq!(received[2 * 7], 27);
}

#[test]
fn drifted_stream_is_attenuated() {
    let a = AudioStream::new(build_file(2, 110, 40));
    let b = AudioStream::new(build_file(2, 110, 40));
    let mut m = AudioMixer::new(vec![a, b], 0);
    let mut channels = vec![0u16, 0u16];
    // The first stream decodes 5 samples per frame fewer: after a second it
    // trails the second stream by more than 5 ms.
    let frames_for = |idx: usize| if idx == 0 { 955 } else { 960 };
    let mut last_drift = 0;
    let mut attenuated = false;
    for _ in 0..100 {
        mix_frame(&mut m, &mut channels, &frames_for, None);
        assert!(m.max_sync_drift >= last_drift);
        last_drift = m.max_sync_drift;
        for s in &m.streams {
            assert!(s.drift_compensation >= 980_000 && s.drift_compensation <= 1_020_000);
        }
        if m.streams[1].drift_compensation < 1_000_000 {
            attenuated = true;
        }
    }
    assert!(m.max_sync_drift >= 240);
    assert!(attenuated);
    assert!(m.streams[0].drift_compensation >= 1_000_000);
    assert!(m.streams[0].drift_stats.drift_samples >= 1);
}

#[test]
fn mid_stream_seek_lands_within_a_frame() {
    let file = build_file(1, 500, 5000);
    let mut s = AudioStream::new(file);
    let target: u64 = 4 * 48000;
    assert_eq!(s.seek_to_timestamp(target), Ok(1));
    assert!(s.header_processed && s.comments_processed);
    let pos = s.current_granule_position;
    assert!(pos + 960 >= target && pos <= target);
    let packet = match s.process_next_packet() {
        Ok(opus_mixer::PacketStep::Audio(p)) => p,
        other => panic!("expected audio, got {:?}", other),
    };
    let pcm = synth(&packet, 1, 960, None);
    assert_eq!(s.accept_decoded(&pcm, 960), 960);
    let first = s.current_granule_position;
    assert!(first + 960 >= target && first <= target + 960);
    assert_eq!(s.total_samples_decoded, first);
}

#[test]
fn reseek_resumes_at_same_position() {
    let file = build_file(2, 300, 5000);
    let mut s = AudioStream::new(file);
    let target: u64 = 3 * 48000 + 500;
    assert_eq!(s.seek_to_timestamp(target), Ok(2));
    let first = s.current_granule_position;
    for _ in 0..20 {
        if let Ok(opus_mixer::PacketStep::Audio(p)) = s.process_next_packet() {
            let pcm = synth(&p, 2, 960, None);
            s.accept_decoded(&pcm, 960);
        }
    }
    assert!(s.current_granule_position > first);
    assert_eq!(s.seek_to_timestamp(target), Ok(2));
    assert_eq!(s.current_granule_position, first);
}

#[test]
fn backpressure_stops_the_producer() {
    let file = build_file(2, 400, 40);
    let mut src = OpusSource::new(48000);
    src.load_file(AudioStream::new(file));
    src.start();
    let mut channels = vec![0u16];
    for _ in 0..10 {
        process(&mut src, 960, &mut channels, None);
    }
    // The consumer never read: only whole frames fit, three of them.
    assert_eq!(src.get_ring_buffer().available_read(), 3 * 1920);
    assert!(src.get_ring_buffer().available_write() < 1920);
    let written_before = src.get_ring_buffer().get_total_samples_written();
    for _ in 0..5 {
        assert_eq!(src.frames_to_process(960), 0);
        assert_eq!(process(&mut src, 960, &mut channels, None), 0);
    }
    assert_eq!(src.get_ring_buffer().get_total_samples_written(), written_before);
    assert_eq!(src.get_ring_buffer().available_read(), 3 * 1920);
}

#[test]
fn mix_continues_after_a_stream_ends() {
    let short = AudioStream::new(build_file(1, 50, 40));
    let long = AudioStream::new(build_file(1, 100, 40));
    let mut m = AudioMixer::new(vec![short, long], 0);
    let mut channels = vec![0u16, 0u16];
    let mut frames = 0;
    let mut frames_after_first_end = 0;
    let mut guard = 0;
    while m.is_active() && guard < 1000 {
        guard += 1;
        if mix_frame(&mut m, &mut channels, &|_| 960, Some(1000)) {
            frames += 1;
            // Two streams at 1000 each share the mix, then one alone: the
            // amplitude stays the same.
            for &v in m.mixed_samples() {
                assert_eq!(v, 1000);
            }
            if m.stream_finished[0] {
                frames_after_first_end += 1;
            }
        }
    }
    assert!(!m.is_active());
    assert!(!m.begin_frame());
    assert!(m.stream_finished[0] && m.stream_finished[1]);
    assert_eq!(frames, 99);
    assert!(frames_after_first_end >= 49);
}

#[test]
fn mixing_two_streams_halves_each() {
    let a = AudioStream::new(build_file(2, 10, 40));
    let b = AudioStream::new(build_file(2, 10, 40));
    let mut m = AudioMixer::new(vec![a, b], 0);
    let mut channels = vec![0u16, 0u16];
    let mut mixed = false;
    for _ in 0..4 {
        if mix_frame(&mut m, &mut channels, &|_| 960, Some(-301)) {
            mixed = true;
            for &v in m.mixed_samples() {
                // Each stream adds -301 / 2, rounded toward zero.
                assert_eq!(v, -300);
                assert!(v.abs() <= 301);
            }
        }
    }
    assert!(mixed);
}

#[test]
fn mixer_seek_returns_decoder_channels() {
    let a = AudioStream::new(build_file(1, 20, 40));
    let b = AudioStream::new(build_file(2, 20, 40));
    let mut m = AudioMixer::new(vec![a, b], 0);
    assert_eq!(m.seek_to_timestamp(), vec![Some(1), Some(2)]);
    assert_eq!(m.streams[0].current_granule_position, 0);
    let mut src = OpusSource::new(48000);
    src.load_file(AudioStream::new(build_file(2, 20, 40)));
    assert_eq!(src.reset(), Some(vec![Some(2)]));
}

#[test]
fn compensation_values() {
    assert_eq!(compensation(1000, 900, 48000), 997_917);
    assert_eq!(compensation(900, 1000, 48000), 1_002_083);
    assert_eq!(compensation(1000, 980, 48000), 1_000_000);
    assert_eq!(compensation(1048, 1000, 48000), 1_000_000);
    assert_eq!(compensation(1049, 1000, 48000), 998_980);
    assert_eq!(compensation(100_000, 0, 48000), 980_000);
    assert_eq!(compensation(0, 100_000, 48000), 1_020_000);
    assert_eq!(compensation(10_000_000, 0, 10_000_000_000), 0);
}

#[test]
fn scaled_sample_values() {
    assert_eq!(scaled_sample(1000, 1_000_000, 2), 500);
    assert_eq!(scaled_sample(-1001, 1_000_000, 2), -500);
    assert_eq!(scaled_sample(32767, 1_020_000, 1), 33422);
    assert_eq!(scaled_sample(-32768, 980_000, 3), -10704);
    assert_eq!(scaled_sample(0, 2_000_000, 1), 0);
    assert_eq!(add_clamped(i32::MAX, 5), i32::MAX);
    assert_eq!(add_clamped(i32::MIN, -5), i32::MIN);
    assert_eq!(add_clamped(7, -9), -2);
}

#[test]
fn malformed_data_is_an_ogg_error() {
    let mut s = AudioStream::new(vec![0x13u8; 200]);
    assert_eq!(s.process_next_packet(), Err(StreamError::OggParse));
}

#[test]
fn truncated_page_is_a_seek_error() {
    let mut data = vec![0u8; 10000];
    data[9990..9994].copy_from_slice(b"OggS");
    let mut s = AudioStream::new(data);
    assert_eq!(s.seek_to_timestamp(48000), Err(StreamError::Seek));
}

#[test]
fn missing_comment_header_is_invalid() {
    let mut w = PacketWriter::new(Vec::new());
    w.write_packet(opus_head(2), 3, PacketWriteEndInfo::EndStream, 0).unwrap();
    let mut s = AudioStream::new(w.into_inner());
    assert_eq!(s.seek_to_timestamp(0), Err(StreamError::InvalidHeader));
}

#[test]
fn undecodable_packets_give_silence_until_the_end() {
    let s = AudioStream::new(build_file(2, 6, 40));
    let mut m = AudioMixer::new(vec![s], 0);
    let mut frames = 0;
    let mut guard = 0;
    while m.begin_frame() && guard < 100 {
        guard += 1;
        if let StreamAction::Decode(_) = m.next_action(0) {
            m.decode_failed(0);
        }
        if m.end_frame() {
            frames += 1;
        }
    }
    assert_eq!(frames, 0);
    assert!(m.stream_finished[0]);
    assert!(!m.is_active());
}

#[test]
fn finished_stream_takes_no_part() {
    let a = AudioStream::new(build_file(2, 6, 40));
    let b = AudioStream::new(build_file(2, 6, 40));
    let mut m = AudioMixer::new(vec![a, b], 0);
    m.finish_stream(0);
    m.finish_stream(0);
    assert_eq!(m.active_streams, 1);
    assert!(m.begin_frame());
    assert_eq!(m.next_action(0), StreamAction::Idle);
    let pcm = vec![100i16; 1920];
    assert_eq!(m.mix_decoded(0, &pcm, 960), 0);
    assert!(!m.end_frame());
}

#[test]
fn failed_seek_finishes_only_that_stream() {
    let mut bad = vec![0u8; 10000];
    bad[9990..9994].copy_from_slice(b"OggS");
    let a = AudioStream::new(bad);
    let b = AudioStream::new(build_file(2, 20, 40));
    let mut m = AudioMixer::new(vec![a, b], 0);
    assert_eq!(m.seek_to_timestamp(), vec![None, Some(2)]);
    assert!(m.stream_finished[0]);
    assert!(!m.stream_finished[1]);
    assert_eq!(m.active_streams, 1);
    assert!(m.streams[1].headers_done());
}

#[test]
fn malformed_page_finishes_the_stream_in_the_mix() {
    let a = AudioStream::new(vec![0x13u8; 200]);
    let b = AudioStream::new(build_file(2, 20, 40));
    let mut m = AudioMixer::new(vec![a, b], 0);
    assert!(m.begin_frame());
    assert_eq!(m.next_action(0), StreamAction::Idle);
    assert!(m.stream_finished[0]);
    assert_eq!(m.active_streams, 1);
    let mut channels = vec![0u16, 0u16];
    let mut mixed = 0;
    for _ in 0..6 {
        if mix_frame(&mut m, &mut channels, &|_| 960, Some(1000)) {
            mixed += 1;
            assert!(m.mixed_samples().iter().all(|&v| v == 1000));
        }
    }
    assert!(mixed > 0);
}

#[test]
fn step_results_map_to_actions() {
    let s = AudioStream::new(build_file(2, 3, 40));
    let mut m = AudioMixer::new(vec![s], 0);
    assert_eq!(
        m.act_on_step(0, Ok(opus_mixer::PacketStep::Audio(vec![1, 2]))),
        (StreamAction::Decode(vec![1, 2]), false)
    );
    assert_eq!(
        m.act_on_step(0, Ok(opus_mixer::PacketStep::OpenDecoder(2))),
        (StreamAction::OpenDecoder(2), false)
    );
    assert_eq!(m.act_on_step(0, Ok(opus_mixer::PacketStep::Header)), (StreamAction::Idle, false));
    m.streams[0].header_processed = true;
    m.streams[0].comments_processed = true;
    assert_eq!(
        m.act_on_step(0, Ok(opus_mixer::PacketStep::EndOfStream)),
        (StreamAction::Idle, true)
    );
    m.end_probe(0, false);
    assert!(!m.stream_finished[0]);
    m.end_probe(0, true);
    assert!(m.stream_finished[0]);
    let t = AudioStream::new(build_file(2, 3, 40));
    let mut m2 = AudioMixer::new(vec![t], 0);
    assert_eq!(m2.act_on_step(0, Err(StreamError::OggParse)), (StreamAction::Idle, false));
    assert!(m2.stream_finished[0]);
    assert_eq!(m2.active_streams, 0);
}

#[test]
fn first_packet_without_opus_head_is_invalid() {
    let mut w = PacketWriter::new(Vec::new());
    w.write_packet(b"NotOpus!".to_vec(), 5, PacketWriteEndInfo::EndPage, 0).unwrap();
    w.write_packet(opus_tags(), 5, PacketWriteEndInfo::EndStream, 0).unwrap();
    let data = w.into_inner();
    let mut s = AudioStream::new(data.clone());
    assert_eq!(s.process_next_packet(), Err(StreamError::InvalidHeader));
    assert!(!s.header_processed);
    let mut m = AudioMixer::new(vec![AudioStream::new(data)], 0);
    assert!(m.begin_frame());
    assert_eq!(m.next_action(0), StreamAction::Idle);
    assert!(m.stream_finished[0]);
    assert!(!m.is_active());
}

#[test]
fn reset_restarts_a_finished_stream() {
    let mut src = OpusSource::new(48000);
    src.load_file(AudioStream::new(build_file(1, 5, 40)));
    src.start();
    let mut channels = vec![0u16];
    let mut guard = 0;
    while src.mixer_mut().map(|m| m.is_active()).unwrap_or(false) && guard < 100 {
        guard += 1;
        process(&mut src, 960, &mut channels, None);
        src.ring_buffer_mut().consume(usize::MAX);
    }
    assert!(src.mixer_mut().unwrap().stream_finished[0]);
    assert_eq!(src.reset(), Some(vec![Some(1)]));
    let m = src.mixer_mut().unwrap();
    assert!(!m.stream_finished[0]);
    assert_eq!(m.active_streams, 1);
    assert_eq!(m.target_granule, 0);
    assert_eq!(m.last_sync_check, 0);
    assert!(m.streams[0].headers_done());
    let written = process(&mut src, 960, &mut channels, None);
    assert_eq!(written, 1920);
}
