//! Errors surfaced by the playback engine's command layer.

use vstd::prelude::*;
use vstd::string::StringExecFns;

verus! {

/// Every failure a command can report. Each variant carries the detail text
/// supplied at the point of failure.
#[derive(Debug)]
pub enum AppError {
    FileNotFound(String),
    FileOpenError(String),
    DecodeError(String),
    InvalidOperation(String),
    SeekError(String),
    NetworkError(String),
    MediaControlsError(String),
    TauriError(String),
}

impl AppError {
    /// Human-readable description: a fixed prefix per variant followed by the
    /// carried detail.
    pub fn message(&self) -> (m: String)
        ensures
            match self {
                AppError::FileNotFound(p) => m@ == "File not found: "@ + p@,
                AppError::FileOpenError(e) => m@ == "Failed to open file: "@ + e@,
                AppError::DecodeError(e) => m@ == "Failed to decode audio: "@ + e@,
                AppError::InvalidOperation(e) => m@ == "Invalid operation: "@ + e@,
                AppError::SeekError(e) => m@ == "Failed to seek: "@ + e@,
                AppError::NetworkError(e) => m@ == "Network error: "@ + e@,
                AppError::MediaControlsError(e) => m@ == "Media controls error: "@ + e@,
                AppError::TauriError(e) => m@ == "Tauri error: "@ + e@,
            },
    {
        match self {
            AppError::FileNotFound(p) => String::from_str("File not found: ").concat(p.as_str()),
            AppError::FileOpenError(e) => String::from_str("Failed to open file: ").concat(
                e.as_str(),
            ),
            AppError::DecodeError(e) => String::from_str("Failed to decode audio: ").concat(
                e.as_str(),
            ),
            AppError::InvalidOperation(e) => String::from_str("Invalid operation: ").concat(
                e.as_str(),
            ),
            AppError::SeekError(e) => String::from_str("Failed to seek: ").concat(e.as_str()),
            AppError::NetworkError(e) => String::from_str("Network error: ").concat(e.as_str()),
            AppError::MediaControlsError(e) => String::from_str("Media controls error: ").concat(
                e.as_str(),
            ),
            AppError::TauriError(e) => String::from_str("Tauri error: ").concat(e.as_str()),
        }
    }
}

} // verus!
