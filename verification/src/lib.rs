//! Verified core of a streaming music playback engine.
//!
//! The crate models the moving parts of a player that decodes audio while the
//! bytes are still arriving: a shared append-only byte store with a consumer
//! cursor and an end-of-stream flag, a pull-based sample source with seek
//! emulation, the per-chunk ingestion bookkeeping that drives progress and
//! deferred-seek notifications, the transport-command state machine, and a
//! bounded least-recently-used cache for downloaded tracks.

pub mod cache;
pub mod cache_ids;
pub mod decode;
pub mod engine;
pub mod error;
pub mod ingest;
pub mod media;
pub mod shared_buffer;
pub mod source;
