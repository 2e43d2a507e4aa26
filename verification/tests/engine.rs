use cicadas::engine::{
    begin_local_session, begin_stream_session, get_music_status, get_playback_progress,
    get_volume, pause, progress_tick, record_position, resume, seek_session,
    set_playback_progress, set_speed, set_volume, status, stop_sink, AudioState, PlaybackStatus,
    ProgressAction, SeekOutcome,
};
use cicadas::error::AppError;
use cicadas::ingest::ingest_chunk;

/// A minimal PCM16 WAV payload with the given parameters.
fn wav_track(rate: u32, channels: u16, sample_count: usize) -> Vec<u8> {
    let data_len = (sample_count * 2) as u32;
    let byte_rate = rate * channels as u32 * 2;
    let block_align = channels * 2;
    let mut out = Vec::new();
    out.extend_from_slice(b"RIFF");
    out.extend_from_slice(&(36 + data_len).to_le_bytes());
    out.extend_from_slice(b"WAVE");
    out.extend_from_slice(b"fmt ");
    out.extend_from_slice(&16u32.to_le_bytes());
    out.extend_from_slice(&1u16.to_le_bytes());
    out.extend_from_slice(&channels.to_le_bytes());
    out.extend_from_slice(&rate.to_le_bytes());
    out.extend_from_slice(&byte_rate.to_le_bytes());
    out.extend_from_slice(&block_align.to_le_bytes());
    out.extend_from_slice(&16u16.to_le_bytes());
    out.extend_from_slice(b"data");
    out.extend_from_slice(&data_len.to_le_bytes());
    out.extend_from_slice(&vec![0u8; sample_count * 2]);
    out
}

fn assert_invalid_operation<T: std::fmt::Debug>(r: Result<T, AppError>) {
    match r {
        Err(AppError::InvalidOperation(_)) => {}
        other => panic!("expected invalid-operation, got {:?}", other),
    }
}

#[test]
fn commands_without_a_sink_fail_with_invalid_operation() {
    let mut st = AudioState::new();
    assert_invalid_operation(pause(&mut st));
    assert_invalid_operation(resume(&mut st));
    assert_invalid_operation(set_volume(&mut st, 500));
    assert_invalid_operation(get_volume(&st));
    assert_invalid_operation(set_speed(&mut st, 1500));
    assert_invalid_operation(get_playback_progress(&st));
    assert_invalid_operation(set_playback_progress(&mut st, 10));
    assert_eq!(status(&st), PlaybackStatus::Stopped);
    assert_eq!(get_music_status(&st).unwrap(), "Stopped");
}

#[test]
fn status_follows_sink_and_pause_flag() {
    let mut st = AudioState::new();
    begin_local_session(&mut st);
    assert_eq!(status(&st), PlaybackStatus::Playing);
    assert_eq!(get_music_status(&st).unwrap(), "Playing");
    pause(&mut st).unwrap();
    assert_eq!(status(&st), PlaybackStatus::Paused);
    assert_eq!(get_music_status(&st).unwrap(), "Paused");
    resume(&mut st).unwrap();
    assert_eq!(status(&st), PlaybackStatus::Playing);
    stop_sink(&mut st);
    assert_eq!(status(&st), PlaybackStatus::Stopped);
}

#[test]
fn volume_and_speed_are_stored_on_the_sink() {
    let mut st = AudioState::new();
    begin_local_session(&mut st);
    assert_eq!(get_volume(&st).unwrap(), 1000);
    set_volume(&mut st, 250).unwrap();
    assert_eq!(get_volume(&st).unwrap(), 250);
    set_speed(&mut st, 2000).unwrap();
    assert_eq!(st.sink.unwrap().speed_permille, 2000);
}

#[test]
fn progress_tick_reports_only_while_playing() {
    let mut st = AudioState::new();
    assert_eq!(progress_tick(&st), ProgressAction::Stop);
    begin_local_session(&mut st);
    assert_eq!(progress_tick(&st), ProgressAction::Emit(0));
    pause(&mut st).unwrap();
    assert_eq!(progress_tick(&st), ProgressAction::Skip);
}

#[test]
fn seek_with_enough_bytes_moves_position() {
    let mut st = AudioState::new();
    begin_stream_session(&mut st, 0);
    // 1000 Hz, 2 channels: 4000 B/s, 16044 bytes buffered.
    let evs = ingest_chunk(&mut st, &wav_track(1000, 2, 8000));
    assert!(evs.is_empty()); // length unknown, no pending target
    set_playback_progress(&mut st, 1500).unwrap();
    assert_eq!(get_playback_progress(&st).unwrap(), 1500);
    assert_eq!(st.seek_target_ms, None);
    assert_eq!(status(&st), PlaybackStatus::Playing);
    // The probe discovered the payload's parameters on the way.
    assert_eq!(st.source.sample_rate(), 1000);
    assert_eq!(st.source.channels(), 2);
}

#[test]
fn seek_past_buffered_bytes_defers_and_pauses() {
    let mut st = AudioState::new();
    begin_stream_session(&mut st, 0);
    // 1000 Hz mono: 2000 B/s, but only 244 bytes buffered so far.
    let _ = ingest_chunk(&mut st, &wav_track(1000, 1, 100));
    set_playback_progress(&mut st, 2000).unwrap();
    assert_eq!(st.seek_target_ms, Some(2000));
    assert_eq!(status(&st), PlaybackStatus::Paused);
    // Position did not move: the target waits for ingestion.
    assert_eq!(get_playback_progress(&st).unwrap(), 0);
}

#[test]
fn seek_on_undecodable_payload_defers_as_well() {
    let mut st = AudioState::new();
    begin_stream_session(&mut st, 0);
    let _ = ingest_chunk(&mut st, &[0u8; 100_000]);
    set_playback_progress(&mut st, 0).unwrap();
    assert_eq!(st.seek_target_ms, Some(0));
    assert_eq!(status(&st), PlaybackStatus::Paused);
}

#[test]
fn seek_session_reports_which_policy_applied() {
    let mut st = AudioState::new();
    assert!(seek_session(&mut st, 10).is_err());
    begin_stream_session(&mut st, 0);
    let _ = ingest_chunk(&mut st, &wav_track(1000, 2, 8000));
    // Enough bytes for 1.5 s at 4000 B/s: the byte-estimate seek applies.
    assert_eq!(seek_session(&mut st, 1500).unwrap(), SeekOutcome::Native);
    // Far beyond the buffer: deferred.
    assert_eq!(seek_session(&mut st, 60_000).unwrap(), SeekOutcome::Deferred);
    assert_eq!(st.seek_target_ms, Some(60_000));
}

#[test]
fn record_position_updates_only_a_live_sink() {
    let mut st = AudioState::new();
    record_position(&mut st, 99);
    assert!(st.sink.is_none());
    begin_local_session(&mut st);
    record_position(&mut st, 4242);
    assert_eq!(get_playback_progress(&st).unwrap(), 4242);
    assert_eq!(status(&st), PlaybackStatus::Playing);
}

#[test]
fn starting_a_stream_session_resets_everything() {
    let mut st = AudioState::new();
    begin_stream_session(&mut st, 0);
    let _ = ingest_chunk(&mut st, &wav_track(8000, 1, 8000));
    set_playback_progress(&mut st, 100).unwrap();
    assert_eq!(st.source.sample_rate(), 8000);
    begin_stream_session(&mut st, 400);
    assert_eq!(st.seek_target_ms, None);
    assert_eq!(st.content_length, 400);
    assert_eq!(st.source.buf.len(), 0);
    assert_eq!(st.source.sample_rate(), 44100);
    assert_eq!(st.source.channels(), 2);
    assert_eq!(status(&st), PlaybackStatus::Playing);
}
