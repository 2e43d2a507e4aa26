use cicadas::engine::{begin_stream_session, set_playback_progress, AudioState};
use cicadas::ingest::{ingest_chunk, PlaybackEvent};
use cicadas::shared_buffer::ReadOutcome;

/// A minimal PCM16 WAV payload with the given parameters.
fn wav_clip(rate: u32, channels: u16, sample_count: usize) -> Vec<u8> {
    let data_len = (sample_count * 2) as u32;
    let byte_rate = rate * channels as u32 * 2;
    let block_align = channels * 2;
    let mut out = Vec::new();
    out.extend_from_slice(b"RIFF");
    out.extend_from_slice(&(36 + data_len).to_le_bytes());
    out.extend_from_slice(b"WAVE");
    out.extend_from_slice(b"fmt ");
    out.extend_from_slice(&16u32.to_le_bytes());
    out.extend_from_slice(&1u16.to_le_bytes());
    out.extend_from_slice(&channels.to_le_bytes());
    out.extend_from_slice(&rate.to_le_bytes());
    out.extend_from_slice(&byte_rate.to_le_bytes());
    out.extend_from_slice(&block_align.to_le_bytes());
    out.extend_from_slice(&16u16.to_le_bytes());
    out.extend_from_slice(b"data");
    out.extend_from_slice(&data_len.to_le_bytes());
    out.extend_from_slice(&vec![0u8; sample_count * 2]);
    out
}

#[test]
fn progress_event_reports_received_permille() {
    let mut st = AudioState::new();
    begin_stream_session(&mut st, 1000);
    let evs = ingest_chunk(&mut st, &[0u8; 250]);
    assert_eq!(
        evs,
        vec![PlaybackEvent::BufferUpdate { buffer_progress_permille: 250 }]
    );
    let evs = ingest_chunk(&mut st, &[0u8; 750]);
    assert_eq!(
        evs,
        vec![PlaybackEvent::BufferUpdate { buffer_progress_permille: 1000 }]
    );
}

#[test]
fn no_progress_event_without_a_known_length() {
    let mut st = AudioState::new();
    begin_stream_session(&mut st, 0);
    let evs = ingest_chunk(&mut st, &[0u8; 512]);
    assert!(evs.is_empty());
}

#[test]
fn deferred_seek_emits_exactly_one_ready_notification() {
    let mut st = AudioState::new();
    begin_stream_session(&mut st, 0);
    // 1000 Hz mono: 2000 bytes per second; 244 bytes buffered.
    let _ = ingest_chunk(&mut st, &wav_clip(1000, 1, 100));
    // One second in lies far beyond the buffer: the seek defers.
    set_playback_progress(&mut st, 1000).unwrap();
    assert_eq!(st.seek_target_ms, Some(1000));
    // 1244 bytes buffer 622 ms: not yet ready.
    let evs = ingest_chunk(&mut st, &[0u8; 1000]);
    assert!(evs.is_empty());
    assert_eq!(st.seek_target_ms, Some(1000));
    // 1500 more reach 1372 ms: ready exactly once, target cleared.
    let evs = ingest_chunk(&mut st, &[0u8; 1500]);
    assert_eq!(evs, vec![PlaybackEvent::BufferSeekReady]);
    assert_eq!(st.seek_target_ms, None);
    // Further chunks never repeat the notification.
    let evs = ingest_chunk(&mut st, &[0u8; 4000]);
    assert!(evs.is_empty());
}

#[test]
fn progress_and_ready_arrive_in_order_in_one_step() {
    let mut st = AudioState::new();
    begin_stream_session(&mut st, 4000);
    let clip = wav_clip(1000, 1, 100);
    let _ = ingest_chunk(&mut st, &clip);
    // Half a second is beyond the 244 buffered bytes: deferred and paused.
    set_playback_progress(&mut st, 500).unwrap();
    // 2000 more bytes buffer 1122 ms >= 500 ms: both events, progress first.
    let evs = ingest_chunk(&mut st, &[0u8; 2000]);
    assert_eq!(
        evs,
        vec![
            PlaybackEvent::BufferUpdate { buffer_progress_permille: 2244 * 1000 / 4000 },
            PlaybackEvent::BufferSeekReady,
        ]
    );
}

#[test]
fn ingestion_keeps_bytes_in_arrival_order() {
    let mut st = AudioState::new();
    begin_stream_session(&mut st, 0);
    let _ = ingest_chunk(&mut st, &[1, 2]);
    let _ = ingest_chunk(&mut st, &[3]);
    let _ = ingest_chunk(&mut st, &[4, 5]);
    match st.source.read(5) {
        ReadOutcome::Data(d) => assert_eq!(d, vec![1, 2, 3, 4, 5]),
        ReadOutcome::WouldBlock => panic!("all five bytes had arrived"),
    }
}
