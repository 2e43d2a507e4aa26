use cicadas::error::AppError;
use cicadas::engine::PlaybackStatus;
use cicadas::media::{display_status, media_command, MediaControlEvent, MediaMetadataInput};

#[test]
fn messages_carry_the_variant_prefix_and_detail() {
    let cases = vec![
        (AppError::FileNotFound("a.mp3".into()), "File not found: a.mp3"),
        (AppError::FileOpenError("denied".into()), "Failed to open file: denied"),
        (AppError::DecodeError("bad header".into()), "Failed to decode audio: bad header"),
        (AppError::InvalidOperation("no sink".into()), "Invalid operation: no sink"),
        (AppError::SeekError("io".into()), "Failed to seek: io"),
        (AppError::NetworkError("timeout".into()), "Network error: timeout"),
        (AppError::MediaControlsError("os".into()), "Media controls error: os"),
        (AppError::TauriError("ipc".into()), "Tauri error: ipc"),
    ];
    for (err, expected) in cases {
        assert_eq!(err.message(), expected);
    }
}

#[test]
fn displayed_status_mirrors_the_playing_flag() {
    assert_eq!(display_status(true), PlaybackStatus::Playing);
    assert_eq!(display_status(false), PlaybackStatus::Paused);
    let meta = MediaMetadataInput {
        title: "t".into(),
        artist: "a".into(),
        album: "l".into(),
        cover: "c".into(),
    };
    assert_eq!(meta.title, "t");
}

#[test]
fn media_key_events_map_to_their_commands() {
    assert_eq!(media_command(MediaControlEvent::Play), Some("play".to_string()));
    assert_eq!(media_command(MediaControlEvent::Pause), Some("pause".to_string()));
    assert_eq!(media_command(MediaControlEvent::Toggle), Some("toggle".to_string()));
    assert_eq!(media_command(MediaControlEvent::Next), Some("next".to_string()));
    assert_eq!(media_command(MediaControlEvent::Previous), Some("previous".to_string()));
    assert_eq!(media_command(MediaControlEvent::Other), None);
}
