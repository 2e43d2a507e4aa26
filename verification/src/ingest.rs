//! Per-chunk ingestion bookkeeping.
//!
//! The producer — a network fetch or an external caller pushing chunks —
//! hands each arrived chunk to `ingest_chunk`, which appends it to the shared
//! store and works out what to tell the command layer: a buffer-progress
//! notification when the stream's total length is known, and a single
//! seek-ready notification the moment the estimated buffered duration
//! reaches a pending deferred-seek target, which also clears the target so
//! the notification can never repeat.

use vstd::prelude::*;
use crate::engine::AudioState;
use crate::source::StreamingSource;

verus! {

/// A tagged notification delivered to the command layer over the event
/// channel, in emission order.
#[derive(Clone, Copy, Debug, PartialEq, Eq, Structural)]
pub enum PlaybackEvent {
    /// Fraction of the expected total bytes received, in thousandths
    /// (saturating).
    BufferUpdate { buffer_progress_permille: u32 },
    /// A pending deferred seek can now be satisfied from the buffer.
    BufferSeekReady,
    /// Current playback position, in milliseconds.
    UpdateProgress { progress_ms: u64 },
}

/// Thousandths of the expected stream received, truncated, saturating at
/// `u32::MAX`.
pub open spec fn progress_permille(received: int, content_length: int) -> int {
    let p = received * 1000 / content_length;
    if p > u32::MAX {
        u32::MAX as int
    } else {
        p
    }
}

/// Estimated duration of `total_len` buffered bytes under the source's
/// discovered parameters, in milliseconds.
pub open spec fn est_buffered_ms(src: StreamingSource, total_len: int) -> int {
    total_len * 1000 / src.bytes_per_second()
}

/// After `chunk` lands, does the buffered duration reach the pending
/// deferred-seek target?
pub open spec fn seek_ready_after(pre: AudioState, chunk: Seq<u8>) -> bool {
    pre.seek_target_ms matches Some(t) && est_buffered_ms(
        pre.source,
        pre.source.buf.bytes().len() + chunk.len() as int,
    ) >= t
}

/// Exactly the notifications one chunk emits: buffer progress when the total
/// length is known, then seek-ready when a pending target is newly
/// satisfied.
pub open spec fn ingest_events(pre: AudioState, chunk: Seq<u8>) -> Seq<PlaybackEvent> {
    let received: int = pre.source.buf.bytes().len() + chunk.len() as int;
    let prog: Seq<PlaybackEvent> = if pre.content_length > 0 {
        seq![
            (PlaybackEvent::BufferUpdate {
                buffer_progress_permille: progress_permille(
                    received as int,
                    pre.content_length as int,
                ) as u32,
            }),
        ]
    } else {
        Seq::empty()
    };
    let rdy: Seq<PlaybackEvent> = if seek_ready_after(pre, chunk) {
        seq![PlaybackEvent::BufferSeekReady]
    } else {
        Seq::empty()
    };
    prog + rdy
}

/// Everything one ingestion step does to the session: the chunk is appended
/// (nothing else about the source moves), the sink and stream length are
/// untouched, the pending seek target is cleared exactly when its readiness
/// was announced, and the emitted notifications are exactly
/// `ingest_events`.
pub open spec fn ingest_rel(
    pre: AudioState,
    chunk: Seq<u8>,
    post: AudioState,
    evs: Seq<PlaybackEvent>,
) -> bool {
    &&& post.source.buf.bytes() == pre.source.buf.bytes() + chunk
    &&& post.source.buf.cursor() == pre.source.buf.cursor()
    &&& post.source.buf.ended() == pre.source.buf.ended()
    &&& post.source.same_params(&pre.source)
    &&& post.source.decoder == pre.source.decoder
    &&& post.sink == pre.sink
    &&& post.content_length == pre.content_length
    &&& post.seek_target_ms == if seek_ready_after(pre, chunk) {
        Option::<u64>::None
    } else {
        pre.seek_target_ms
    }
    &&& evs == ingest_events(pre, chunk)
}

/// Ingest one arrived chunk, returning the notifications to deliver, in
/// order. The data-arrived signal to the blocked consumer is the
/// embedding's, sent after this returns.
pub fn ingest_chunk(state: &mut AudioState, chunk: &[u8]) -> (evs: Vec<PlaybackEvent>)
    requires
        old(state).wf(),
        old(state).source.buf.bytes().len() + chunk@.len() <= usize::MAX,
    ensures
        final(state).wf(),
        ingest_rel(*old(state), chunk@, *final(state), evs@),
{
    state.source.buf.append(chunk);
    let mut evs: Vec<PlaybackEvent> = Vec::new();
    let cl = state.content_length;
    if cl > 0 {
        let received = state.source.buf.len();
        let p128: u128 = received as u128 * 1000 / cl as u128;
        let p: u32 = if p128 > u32::MAX as u128 {
            u32::MAX
        } else {
            p128 as u32
        };
        evs.push(PlaybackEvent::BufferUpdate { buffer_progress_permille: p });
    }
    let ready: bool = match state.seek_target_ms {
        Some(t) => {
            let b = state.source.buffered_duration_ms();
            b >= t
        },
        None => false,
    };
    if ready {
        evs.push(PlaybackEvent::BufferSeekReady);
        state.seek_target_ms = None;
    }
    assert(evs@ =~= ingest_events(*old(state), chunk@));
    evs
}

/// Law: a deferred-seek target produces its ready notification exactly once.
/// When one ingestion step announces readiness, the step leaves no pending
/// target, so the step that follows — whatever chunk arrives — cannot
/// announce it again.
pub proof fn lemma_seek_ready_emitted_once(
    s0: AudioState,
    c1: Seq<u8>,
    s1: AudioState,
    e1: Seq<PlaybackEvent>,
    c2: Seq<u8>,
    s2: AudioState,
    e2: Seq<PlaybackEvent>,
)
    requires
        ingest_rel(s0, c1, s1, e1),
        ingest_rel(s1, c2, s2, e2),
        e1.contains(PlaybackEvent::BufferSeekReady),
    ensures
        s1.seek_target_ms is None,
        !e2.contains(PlaybackEvent::BufferSeekReady),
{
    if !seek_ready_after(s0, c1) {
        assert(forall|i: int|
            0 <= i < e1.len() ==> e1[i] is BufferUpdate);
        assert(false);
    }
    assert(!seek_ready_after(s1, c2));
    assert(forall|i: int|
        0 <= i < e2.len() ==> e2[i] is BufferUpdate);
}

} // verus!
