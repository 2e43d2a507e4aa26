use cicadas::shared_buffer::ReadOutcome;
use cicadas::source::{seek_offset, PullStep, SeekError, SeekFrom, StreamingSource};

/// A minimal PCM16 WAV payload with the given parameters.
fn wav_bytes(rate: u32, channels: u16, samples: &[i16]) -> Vec<u8> {
    let data_len = (samples.len() * 2) as u32;
    let byte_rate = rate * channels as u32 * 2;
    let block_align = channels * 2;
    let mut out = Vec::new();
    out.extend_from_slice(b"RIFF");
    out.extend_from_slice(&(36 + data_len).to_le_bytes());
    out.extend_from_slice(b"WAVE");
    out.extend_from_slice(b"fmt ");
    out.extend_from_slice(&16u32.to_le_bytes());
    out.extend_from_slice(&1u16.to_le_bytes());
    out.extend_from_slice(&channels.to_le_bytes());
    out.extend_from_slice(&rate.to_le_bytes());
    out.extend_from_slice(&byte_rate.to_le_bytes());
    out.extend_from_slice(&block_align.to_le_bytes());
    out.extend_from_slice(&16u16.to_le_bytes());
    out.extend_from_slice(b"data");
    out.extend_from_slice(&data_len.to_le_bytes());
    for s in samples {
        out.extend_from_slice(&s.to_le_bytes());
    }
    out
}

fn cursor_of(s: &mut StreamingSource) -> u64 {
    s.seek(SeekFrom::Current(0)).unwrap()
}

#[test]
fn seek_offset_estimates_and_aligns_exactly() {
    // 1000 Hz, 2 channels: 4000 bytes per second, frames of 4 bytes.
    assert_eq!(seek_offset(1000, 2, 1000, 10_000), Some(4000));
    // 999 Hz, 2 channels: 3996 B/s; 500 ms -> 1998, aligned down to 1996.
    assert_eq!(seek_offset(999, 2, 500, 10_000), Some(1996));
    // At or past the buffered length: refused, never out of bounds.
    assert_eq!(seek_offset(1000, 2, 1000, 4000), None);
    assert_eq!(seek_offset(1000, 2, 1000, 3999), None);
    assert_eq!(seek_offset(44100, 2, 0, 1), Some(0));
    assert_eq!(seek_offset(44100, 2, 1, 0), None);
}

#[test]
fn byte_estimate_seek_probes_and_lands_frame_aligned() {
    let mut s = StreamingSource::new();
    // 8000 Hz mono: 16000 B/s; one second of audio plus the 44-byte header.
    let wav = wav_bytes(8000, 1, &vec![0i16; 8000]);
    let len = wav.len() as u64;
    s.buf.append(&wav);
    assert!(s.try_seek(500).is_ok());
    // The probe discovered the real parameters...
    assert_eq!(s.sample_rate(), 8000);
    assert_eq!(s.channels(), 1);
    // ...and the cursor sits at 500 ms * 16000 B/s, inside the buffer.
    let pos = cursor_of(&mut s);
    assert_eq!(pos, 8000);
    assert!(pos < len);
    assert_eq!(pos % 2, 0);
}

#[test]
fn byte_estimate_seek_beyond_buffer_is_not_supported() {
    let mut s = StreamingSource::new();
    s.buf.append(&wav_bytes(8000, 1, &vec![0i16; 100]));
    // Two seconds need 32000 bytes; only 244 are buffered.
    assert_eq!(s.try_seek(2000), Err(SeekError::NotSupported));
    assert_eq!(cursor_of(&mut s), 0);
}

#[test]
fn byte_estimate_seek_on_undecodable_bytes_is_not_supported() {
    let mut s = StreamingSource::new();
    s.buf.append(&[0u8; 4096]);
    assert_eq!(s.try_seek(0), Err(SeekError::NotSupported));
    assert_eq!(cursor_of(&mut s), 0);
}

#[test]
fn raw_seek_repositions_and_rejects_out_of_range() {
    let mut s = StreamingSource::new();
    s.buf.append(&[0u8; 100]);
    assert_eq!(s.seek(SeekFrom::Start(40)).unwrap(), 40);
    assert_eq!(s.seek(SeekFrom::Current(-10)).unwrap(), 30);
    assert_eq!(s.seek(SeekFrom::End(-1)).unwrap(), 99);
    assert!(matches!(
        s.seek(SeekFrom::Start(101)),
        Err(cicadas::error::AppError::SeekError(_))
    ));
    assert!(matches!(
        s.seek(SeekFrom::Current(-200)),
        Err(cicadas::error::AppError::SeekError(_))
    ));
    // The failed seeks left the cursor where it was.
    assert_eq!(cursor_of(&mut s), 99);
}

#[test]
fn pull_builds_a_context_and_yields_the_encoded_samples() {
    let mut s = StreamingSource::new();
    let samples: Vec<i16> = vec![0, 16384, -16384, 32767];
    s.buf.append(&wav_bytes(8000, 1, &samples));
    assert_eq!(s.pull_step(), PullStep::Sample);
    // The context discovered the payload's parameters...
    assert_eq!(s.sample_rate(), 8000);
    assert_eq!(s.channels(), 1);
    // ...consumed the buffer up to its end...
    let len = s.buf.len() as u64;
    {
        let dec = s.decoder.as_mut().expect("context is live");
        // ...and decodes the samples that were encoded.
        let first = dec.inner.next().expect("first sample");
        assert!(first.abs() < 1e-4);
        let second = dec.inner.next().expect("second sample");
        assert!((second - 0.5).abs() < 1e-3);
    }
    assert_eq!(cursor_of(&mut s), len);
}

#[test]
fn pull_on_undecodable_bytes_waits_for_more_data() {
    let mut s = StreamingSource::new();
    s.buf.append(&[7u8, 8, 9]);
    assert_eq!(s.pull_step(), PullStep::Wait);
    // The bytes were consumed in order nonetheless.
    assert_eq!(cursor_of(&mut s), 3);
    // Once the stream ends with nothing decodable left, the source finishes.
    s.buf.set_ended();
    assert_eq!(s.pull_step(), PullStep::Finished);
}

#[test]
fn pull_prefers_the_live_context_and_finishes_after_end() {
    let mut s = StreamingSource::new();
    s.buf.append(&wav_bytes(8000, 1, &vec![0i16; 16]));
    assert_eq!(s.pull_step(), PullStep::Sample);
    // A live context is used as it stands.
    assert_eq!(s.pull_step(), PullStep::Sample);
    // It runs dry with nothing buffered and the stream still open: wait.
    s.decoder_exhausted();
    assert_eq!(s.pull_step(), PullStep::Wait);
    s.buf.set_ended();
    assert_eq!(s.pull_step(), PullStep::Finished);
}

#[test]
fn reads_hand_out_buffered_bytes_in_order() {
    let mut s = StreamingSource::new();
    s.buf.append(&[1, 2, 3, 4, 5]);
    match s.read(3) {
        ReadOutcome::Data(d) => assert_eq!(d, vec![1, 2, 3]),
        ReadOutcome::WouldBlock => panic!("bytes were buffered"),
    }
    assert!(matches!(s.read(3), ReadOutcome::WouldBlock));
    s.buf.set_ended();
    match s.read(3) {
        ReadOutcome::Data(d) => assert_eq!(d, vec![4, 5]),
        ReadOutcome::WouldBlock => panic!("stream has ended"),
    }
}

#[test]
fn duration_estimates_follow_discovered_parameters() {
    let mut s = StreamingSource::new();
    // 1000 Hz, 2 channels: 4000 B/s; 8044 bytes buffered in all.
    s.buf.append(&wav_bytes(1000, 2, &vec![0i16; 4000]));
    assert_eq!(s.pull_step(), PullStep::Sample);
    assert_eq!(s.buffered_duration_ms(), 8044 * 1000 / 4000);
    assert_eq!(s.total_duration_ms(), 8044 / 2 / 2);
    assert!(s.current_span_len().is_some());
}

#[test]
fn reset_rewinds_and_drops_the_context() {
    let mut s = StreamingSource::new();
    s.buf.append(&wav_bytes(8000, 1, &vec![0i16; 16]));
    assert_eq!(s.pull_step(), PullStep::Sample);
    s.reset();
    assert!(s.decoder.is_none());
    assert_eq!(cursor_of(&mut s), 0);
    assert!(s.current_span_len().is_none());
}
