//! The playback engine's command surface.
//!
//! `AudioState` is the one session context of the player: the active output
//! sink (at most one), the streaming source, the pending deferred-seek
//! target and the expected byte length of the current stream. Every
//! transport command decides here, on plain state; the embedding applies the
//! decisions to the real output device. A command that needs an active sink
//! fails with an invalid-operation error — and changes nothing — whenever no
//! sink is live.

use vstd::prelude::*;
use vstd::string::StringExecFns;
use crate::error::AppError;
use crate::decode::decodes;
use crate::source::SeekError;
use crate::source::StreamingSource;

verus! {

/// Model of the live output sink: paused flag, volume and speed (in
/// thousandths of the nominal value; 1000 is unchanged audio), and the
/// playback position.
#[derive(Clone, Copy, Debug, PartialEq, Eq, Structural)]
pub struct SinkState {
    pub paused: bool,
    pub volume_permille: u32,
    pub speed_permille: u32,
    pub position_ms: u64,
}

impl SinkState {
    /// A sink as freshly connected to the output mixer: playing from the
    /// start at nominal volume and speed.
    pub open spec fn fresh() -> SinkState {
        SinkState { paused: false, volume_permille: 1000, speed_permille: 1000, position_ms: 0 }
    }
}

/// Transport status as reported to the command layer.
#[derive(Clone, Copy, Debug, PartialEq, Eq, Structural)]
pub enum PlaybackStatus {
    Stopped,
    Paused,
    Playing,
}

/// What the periodic progress reporter must do on one tick.
#[derive(Clone, Copy, Debug, PartialEq, Eq, Structural)]
pub enum ProgressAction {
    /// Sink live and playing: report this position, in milliseconds.
    Emit(u64),
    /// Sink live but paused: report nothing this tick.
    Skip,
    /// No sink any more: the reporter stops for good.
    Stop,
}

/// The session context of the playback subsystem, owned in one place and
/// handed by reference to every operation.
pub struct AudioState {
    pub sink: Option<SinkState>,
    pub source: StreamingSource,
    pub seek_target_ms: Option<u64>,
    pub content_length: u64,
}

impl AudioState {
    pub open spec fn wf(&self) -> bool {
        self.source.wf()
    }

    /// Status derived from sink presence and its paused flag.
    pub open spec fn status_spec(&self) -> PlaybackStatus {
        match self.sink {
            Option::None => PlaybackStatus::Stopped,
            Option::Some(s) => if s.paused {
                PlaybackStatus::Paused
            } else {
                PlaybackStatus::Playing
            },
        }
    }

    /// Everything a sink-only command leaves alone.
    pub open spec fn same_except_sink(&self, other: &Self) -> bool {
        &&& self.source == other.source
        &&& self.seek_target_ms == other.seek_target_ms
        &&& self.content_length == other.content_length
    }

    /// A fresh session: no sink, an empty source, no pending seek, unknown
    /// stream length.
    pub fn new() -> (st: AudioState)
        ensures
            st.wf(),
            st.sink is None,
            st.seek_target_ms is None,
            st.content_length == 0,
            st.source.buf.bytes() =~= Seq::<u8>::empty(),
            st.source.buf.cursor() == 0,
            !st.source.buf.ended(),
            !st.source.has_decoder(),
    {
        AudioState {
            sink: None,
            source: StreamingSource::new(),
            seek_target_ms: None,
            content_length: 0,
        }
    }
}

/// Tear down whatever session was live and begin a streaming one: store,
/// decode context, pending seek and duration state all reset, the expected
/// byte length recorded, and a fresh sink started.
pub fn begin_stream_session(state: &mut AudioState, content_length: u64)
    requires
        old(state).wf(),
    ensures
        final(state).wf(),
        final(state).sink == Some(SinkState::fresh()),
        final(state).seek_target_ms is None,
        final(state).content_length == content_length,
        final(state).source.buf.bytes() =~= Seq::<u8>::empty(),
        final(state).source.buf.cursor() == 0,
        !final(state).source.buf.ended(),
        !final(state).source.has_decoder(),
        final(state).source.sample_rate == 44100,
        final(state).source.channels == 2,
{
    state.source = StreamingSource::new();
    state.seek_target_ms = None;
    state.content_length = content_length;
    state.sink = Some(
        SinkState { paused: false, volume_permille: 1000, speed_permille: 1000, position_ms: 0 },
    );
}

/// Replace the sink for fully-buffered local playback. The streaming store
/// is not part of such a session and stays as it was.
pub fn begin_local_session(state: &mut AudioState)
    requires
        old(state).wf(),
    ensures
        final(state).wf(),
        final(state).sink == Some(SinkState::fresh()),
        final(state).same_except_sink(old(state)),
{
    state.sink = Some(
        SinkState { paused: false, volume_permille: 1000, speed_permille: 1000, position_ms: 0 },
    );
}

/// Drop the sink (end of playback); the rest of the session stays.
pub fn stop_sink(state: &mut AudioState)
    requires
        old(state).wf(),
    ensures
        final(state).wf(),
        final(state).sink is None,
        final(state).same_except_sink(old(state)),
{
    state.sink = None;
}

/// Transport status: `Stopped` without a sink, else `Paused` or `Playing`
/// by the sink's paused flag.
pub fn status(state: &AudioState) -> (st: PlaybackStatus)
    ensures
        st == state.status_spec(),
{
    match &state.sink {
        None => PlaybackStatus::Stopped,
        Some(s) => if s.paused {
            PlaybackStatus::Paused
        } else {
            PlaybackStatus::Playing
        },
    }
}

/// Status as the command layer's string; never fails.
pub fn get_music_status(state: &AudioState) -> (r: Result<String, AppError>)
    ensures
        r matches Ok(m) && (match state.status_spec() {
            PlaybackStatus::Stopped => m@ == "Stopped"@,
            PlaybackStatus::Paused => m@ == "Paused"@,
            PlaybackStatus::Playing => m@ == "Playing"@,
        }),
{
    match &state.sink {
        None => Ok(String::from_str("Stopped")),
        Some(s) => if s.paused {
            Ok(String::from_str("Paused"))
        } else {
            Ok(String::from_str("Playing"))
        },
    }
}

/// Pause the active sink; with no sink this is an invalid operation and the
/// state is untouched.
pub fn pause(state: &mut AudioState) -> (r: Result<(), AppError>)
    requires
        old(state).wf(),
    ensures
        final(state).wf(),
        r is Ok <==> old(state).sink is Some,
        old(state).sink matches Some(s) ==> ({
            &&& final(state).sink == Some((SinkState { paused: true, ..s }))
            &&& final(state).same_except_sink(old(state))
        }),
        old(state).sink is None ==> *final(state) == *old(state) && (r matches Err(e) && e is
        InvalidOperation),
{
    match state.sink {
        Some(s) => {
            state.sink = Some(SinkState { paused: true, ..s });
            Ok(())
        },
        None => Err(AppError::InvalidOperation(String::from_str("No active playback to pause"))),
    }
}

/// Resume the active sink; with no sink this is an invalid operation and the
/// state is untouched.
pub fn resume(state: &mut AudioState) -> (r: Result<(), AppError>)
    requires
        old(state).wf(),
    ensures
        final(state).wf(),
        r is Ok <==> old(state).sink is Some,
        old(state).sink matches Some(s) ==> ({
            &&& final(state).sink == Some((SinkState { paused: false, ..s }))
            &&& final(state).same_except_sink(old(state))
        }),
        old(state).sink is None ==> *final(state) == *old(state) && (r matches Err(e) && e is
        InvalidOperation),
{
    match state.sink {
        Some(s) => {
            state.sink = Some(SinkState { paused: false, ..s });
            Ok(())
        },
        None => Err(AppError::InvalidOperation(String::from_str("No active playback to play"))),
    }
}

/// Set the sink's volume, in thousandths of nominal; invalid operation
/// without a sink.
pub fn set_volume(state: &mut AudioState, volume_permille: u32) -> (r: Result<(), AppError>)
    requires
        old(state).wf(),
    ensures
        final(state).wf(),
        r is Ok <==> old(state).sink is Some,
        old(state).sink matches Some(s) ==> ({
            &&& final(state).sink == Some((SinkState { volume_permille: volume_permille, ..s }))
            &&& final(state).same_except_sink(old(state))
        }),
        old(state).sink is None ==> *final(state) == *old(state) && (r matches Err(e) && e is
        InvalidOperation),
{
    match state.sink {
        Some(s) => {
            state.sink = Some(SinkState { volume_permille, ..s });
            Ok(())
        },
        None => Err(
            AppError::InvalidOperation(String::from_str("No active playback to set volume")),
        ),
    }
}

/// Read the sink's volume; invalid operation without a sink.
pub fn get_volume(state: &AudioState) -> (r: Result<u32, AppError>)
    ensures
        r is Ok <==> state.sink is Some,
        state.sink matches Some(s) ==> (r matches Ok(v) && v == s.volume_permille),
        state.sink is None ==> (r matches Err(e) && e is InvalidOperation),
{
    match &state.sink {
        Some(s) => Ok(s.volume_permille),
        None => Err(AppError::InvalidOperation(String::from_str("No active playback"))),
    }
}

/// Set the sink's playback speed, in thousandths of nominal; invalid
/// operation without a sink.
pub fn set_speed(state: &mut AudioState, speed_permille: u32) -> (r: Result<(), AppError>)
    requires
        old(state).wf(),
    ensures
        final(state).wf(),
        r is Ok <==> old(state).sink is Some,
        old(state).sink matches Some(s) ==> ({
            &&& final(state).sink == Some((SinkState { speed_permille: speed_permille, ..s }))
            &&& final(state).same_except_sink(old(state))
        }),
        old(state).sink is None ==> *final(state) == *old(state) && (r matches Err(e) && e is
        InvalidOperation),
{
    match state.sink {
        Some(s) => {
            state.sink = Some(SinkState { speed_permille, ..s });
            Ok(())
        },
        None => Err(
            AppError::InvalidOperation(String::from_str("No active playback to set speed")),
        ),
    }
}

/// Current playback position in milliseconds; invalid operation without a
/// sink.
pub fn get_playback_progress(state: &AudioState) -> (r: Result<u64, AppError>)
    ensures
        r is Ok <==> state.sink is Some,
        state.sink matches Some(s) ==> (r matches Ok(p) && p == s.position_ms),
        state.sink is None ==> (r matches Err(e) && e is InvalidOperation),
{
    match &state.sink {
        Some(s) => Ok(s.position_ms),
        None => Err(AppError::InvalidOperation(String::from_str("No active playback"))),
    }
}

/// Which seek policy a live session applied.
#[derive(Clone, Copy, Debug, PartialEq, Eq, Structural)]
pub enum SeekOutcome {
    /// The byte-estimate seek repositioned the source.
    Native,
    /// The target was recorded for ingestion to satisfy.
    Deferred,
}

/// The byte-estimate seek went through: the cursor lands frame-aligned at
/// the estimate under the probed parameters, short of the buffered bytes,
/// and the sink position follows; the pending target is untouched.
pub open spec fn seek_applied(
    pre: AudioState,
    post: AudioState,
    s: SinkState,
    progress_ms: u64,
) -> bool {
    let target = post.source.seek_byte_target(progress_ms as int);
    &&& post.sink == Some((SinkState { position_ms: progress_ms, ..s }))
    &&& post.seek_target_ms == pre.seek_target_ms
    &&& target < pre.source.buf.bytes().len()
    &&& post.source.buf.cursor() == target - (target % post.source.frame_size())
    &&& post.source.buf.cursor() % post.source.frame_size() == 0
    &&& !post.source.has_decoder()
}

/// The seek was deferred: the target is recorded, output pauses, and the
/// source's cursor and context stay where they were.
pub open spec fn seek_deferred(
    pre: AudioState,
    post: AudioState,
    s: SinkState,
    progress_ms: u64,
) -> bool {
    &&& post.sink == Some((SinkState { paused: true, ..s }))
    &&& post.seek_target_ms == Some(progress_ms)
    &&& post.source.buf.cursor() == pre.source.buf.cursor()
    &&& post.source.decoder == pre.source.decoder
}

/// Seek the live session to `progress_ms`, reporting which policy applied.
/// The byte-estimate seek is owed whenever the buffered payload decodes and
/// the estimate lands inside the buffer; the seek is deferred exactly
/// otherwise — undecodable payload, or estimate at or beyond the buffered
/// bytes. Without a sink the command is an invalid operation and nothing
/// changes.
pub fn seek_session(state: &mut AudioState, progress_ms: u64) -> (r: Result<
    SeekOutcome,
    AppError,
>)
    requires
        old(state).wf(),
    ensures
        final(state).wf(),
        r is Ok <==> old(state).sink is Some,
        old(state).sink is None ==> *final(state) == *old(state) && (r matches Err(e) && e is
        InvalidOperation),
        old(state).sink matches Some(s) ==> ({
            &&& final(state).content_length == old(state).content_length
            &&& final(state).source.same_store(&old(state).source)
            &&& (r matches Ok(o) && if o == SeekOutcome::Native {
                seek_applied(*old(state), *final(state), s, progress_ms)
            } else {
                seek_deferred(*old(state), *final(state), s, progress_ms)
            })
            &&& !decodes(old(state).source.buf.bytes()) ==> (r matches Ok(o) && o == SeekOutcome::Deferred)
            &&& decodes(old(state).source.buf.bytes()) ==> ((r matches Ok(o) && o
                == SeekOutcome::Native) <==> final(state).source.seek_byte_target(
                progress_ms as int,
            ) < old(state).source.buf.bytes().len())
        }),
{
    match state.sink {
        Some(s) => {
            match state.source.try_seek(progress_ms) {
                Ok(()) => {
                    state.sink = Some(SinkState { position_ms: progress_ms, ..s });
                    Ok(SeekOutcome::Native)
                },
                Err(SeekError::NotSupported) => {
                    state.seek_target_ms = Some(progress_ms);
                    state.sink = Some(SinkState { paused: true, ..s });
                    Ok(SeekOutcome::Deferred)
                },
            }
        },
        None => Err(
            AppError::InvalidOperation(String::from_str("No active playback to set progress")),
        ),
    }
}

/// The command-layer face of `seek_session`: same behaviour, outcome
/// dropped. The byte-estimate seek is owed whenever the buffered payload
/// decodes and the estimate lands inside the buffer; the seek is deferred
/// exactly otherwise. Without a sink the command is an invalid operation
/// and nothing changes.
pub fn set_playback_progress(state: &mut AudioState, progress_ms: u64) -> (r: Result<
    (),
    AppError,
>)
    requires
        old(state).wf(),
    ensures
        final(state).wf(),
        r is Ok <==> old(state).sink is Some,
        old(state).sink is None ==> *final(state) == *old(state) && (r matches Err(e) && e is
        InvalidOperation),
        old(state).sink matches Some(s) ==> ({
            &&& final(state).content_length == old(state).content_length
            &&& final(state).source.same_store(&old(state).source)
            &&& !decodes(old(state).source.buf.bytes()) ==> seek_deferred(
                *old(state),
                *final(state),
                s,
                progress_ms,
            )
            &&& decodes(old(state).source.buf.bytes()) ==> if final(state).source.seek_byte_target(
                progress_ms as int,
            ) < old(state).source.buf.bytes().len() {
                seek_applied(*old(state), *final(state), s, progress_ms)
            } else {
                seek_deferred(*old(state), *final(state), s, progress_ms)
            }
        }),
{
    match seek_session(state, progress_ms) {
        Ok(_) => Ok(()),
        Err(e) => Err(e),
    }
}

/// Adopt the output device's reported playback position into the session's
/// sink state; without a sink nothing changes.
pub fn record_position(state: &mut AudioState, position_ms: u64)
    requires
        old(state).wf(),
    ensures
        final(state).wf(),
        old(state).sink is None ==> *final(state) == *old(state),
        old(state).sink matches Some(s) ==> ({
            &&& final(state).sink == Some((SinkState { position_ms: position_ms, ..s }))
            &&& final(state).same_except_sink(old(state))
        }),
{
    match state.sink {
        Some(s) => {
            state.sink = Some(SinkState { position_ms, ..s });
        },
        None => {},
    }
}

/// One tick of the periodic progress reporter: report the position while
/// playing, stay quiet while paused, stop once the sink is gone.
pub fn progress_tick(state: &AudioState) -> (a: ProgressAction)
    ensures
        state.sink is None ==> a is Stop,
        state.sink matches Some(s) ==> if s.paused {
            a is Skip
        } else {
            a == ProgressAction::Emit(s.position_ms)
        },
{
    match &state.sink {
        None => ProgressAction::Stop,
        Some(s) => if s.paused {
            ProgressAction::Skip
        } else {
            ProgressAction::Emit(s.position_ms)
        },
    }
}

} // verus!
