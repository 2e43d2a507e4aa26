//! Data exchanged with the operating system's media controls.
//!
//! The controls themselves — registering handlers, pushing metadata to the
//! platform — are an outside collaborator driven by the embedding; the
//! library holds the metadata record and the decisions: which command each
//! media-key event triggers and which transport state to display.

use vstd::prelude::*;
use vstd::string::StringExecFns;
use crate::engine::PlaybackStatus;

verus! {

/// The displayed track metadata, as received from the command layer.
pub struct MediaMetadataInput {
    pub title: String,
    pub artist: String,
    pub album: String,
    pub cover: String,
}

/// A media-key event from the operating system's controls, as far as the
/// player reacts to one.
#[derive(Clone, Copy, Debug, PartialEq, Eq, Structural)]
pub enum MediaControlEvent {
    Play,
    Pause,
    Toggle,
    Next,
    Previous,
    Other,
}

/// The command the player's command layer receives for a media-key event;
/// events the player does not react to yield nothing.
pub fn media_command(event: MediaControlEvent) -> (r: Option<String>)
    ensures
        match event {
            MediaControlEvent::Play => r matches Some(c) && c@ == "play"@,
            MediaControlEvent::Pause => r matches Some(c) && c@ == "pause"@,
            MediaControlEvent::Toggle => r matches Some(c) && c@ == "toggle"@,
            MediaControlEvent::Next => r matches Some(c) && c@ == "next"@,
            MediaControlEvent::Previous => r matches Some(c) && c@ == "previous"@,
            MediaControlEvent::Other => r is None,
        },
{
    match event {
        MediaControlEvent::Play => Some(String::from_str("play")),
        MediaControlEvent::Pause => Some(String::from_str("pause")),
        MediaControlEvent::Toggle => Some(String::from_str("toggle")),
        MediaControlEvent::Next => Some(String::from_str("next")),
        MediaControlEvent::Previous => Some(String::from_str("previous")),
        MediaControlEvent::Other => None,
    }
}

/// Which transport state the system controls must display for a session
/// that reports whether it is playing.
pub fn display_status(is_playing: bool) -> (st: PlaybackStatus)
    ensures
        st == if is_playing {
            PlaybackStatus::Playing
        } else {
            PlaybackStatus::Paused
        },
{
    if is_playing {
        PlaybackStatus::Playing
    } else {
        PlaybackStatus::Paused
    }
}

} // verus!
