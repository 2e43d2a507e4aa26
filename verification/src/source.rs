//! The streaming sample source: a pull adapter over the shared byte store.
//!
//! The source composes the store with a swappable decode context — rodio's
//! decoder, held behind an option and rebuilt functionally whenever the
//! cursor jumps or the context runs dry while new bytes have arrived. The
//! context is opaque: which byte sequences decode is known only by name
//! (`decodes`), the parameters a context reports are left open, and the
//! verified logic here — when to rebuild, over exactly which bytes, when to
//! report exhaustion, when the consumer must wait, and where a seek may
//! land — holds for every outcome. The embedding draws the samples
//! themselves from the live context.

use vstd::prelude::*;
use vstd::arithmetic::div_mod::lemma_fundamental_div_mod;
use vstd::arithmetic::div_mod::lemma_mod_decreases;
use vstd::arithmetic::div_mod::lemma_mod_multiples_basic;
use vstd::arithmetic::mul::lemma_mul_is_commutative;
use crate::decode::ByteDecoder;
use crate::decode::decoder_channels;
use crate::decode::decoder_current_span_len;
use crate::decode::decoder_new;
use crate::decode::decoder_sample_rate;
use crate::decode::decodes;
use crate::shared_buffer::ReadOutcome;
use crate::shared_buffer::SharedBuffer;
use crate::error::AppError;
use vstd::string::StringExecFns;

verus! {

/// Why a seek through the source could not be honoured: repositioning
/// inside a partially buffered stream is refused — never attempted out of
/// bounds — when the payload cannot be probed or the estimated target lies
/// beyond the bytes buffered so far.
#[derive(Clone, Copy, Debug, PartialEq, Eq, Structural)]
pub enum SeekError {
    NotSupported,
}

/// A raw byte seek request, relative to the start, the cursor, or the end of
/// the buffered bytes.
#[derive(Clone, Copy, Debug, PartialEq, Eq, Structural)]
pub enum SeekFrom {
    Start(u64),
    Current(i64),
    End(i64),
}

/// What the pull loop learned from one decision.
#[derive(Clone, Copy, Debug, PartialEq, Eq, Structural)]
pub enum PullStep {
    /// A decode context is live: pull the next sample from it.
    Sample,
    /// The stream has ended and every byte was handed to a context: the
    /// source is exhausted and yields no further sample.
    Finished,
    /// Nothing to decode right now: wait for the producer's data-arrived
    /// signal, then ask again.
    Wait,
}

/// Pull adapter composing the shared byte store with a swappable decode
/// context, with seek emulation over the buffered bytes.
pub struct StreamingSource {
    pub buf: SharedBuffer,
    pub sample_rate: u32,
    pub channels: u16,
    /// The live decode context, if any; the embedding pulls samples from it.
    pub decoder: Option<ByteDecoder>,
    /// The bytes the live context was built over.
    pub context_bytes: Ghost<Seq<u8>>,
}

/// The byte rate `rate * ch * 2` of any well-formed source is positive and
/// small enough that rate computations fit comfortably in 128 bits.
proof fn lemma_bps_in_range(rate: int, ch: int)
    requires
        1 <= rate <= u32::MAX,
        1 <= ch <= u16::MAX,
    ensures
        2 <= rate * ch * 2 <= 0x2_0000_0000_0000,
{
    assert(1 <= rate * ch <= 0x1_0000_0000_0000) by (nonlinear_arith)
        requires
            1 <= rate <= 0x1_0000_0000int,
            1 <= ch <= 0x1_0000int,
    ;
}

/// The byte-estimate seek computation, exact and free of the decode
/// primitive: the estimated byte offset of `pos_ms` under the given audio
/// parameters — milliseconds times the byte rate — aligned down to a whole
/// sample frame; or nothing when the estimate lies at or beyond the `len`
/// buffered bytes, so a seek never lands out of bounds.
pub fn seek_offset(sample_rate: u32, channels: u16, pos_ms: u64, len: usize) -> (r: Option<
    usize,
>)
    requires
        sample_rate >= 1,
        channels >= 1,
    ensures
        ({
            let target = pos_ms * (sample_rate * channels * 2) / 1000;
            let frame = channels * 2;
            if target >= len {
                r is None
            } else {
                r matches Some(o) && o == target - (target % frame) && (o as int) % frame == 0
                    && o <= target
            }
        }),
{
    proof {
        lemma_bps_in_range(sample_rate as int, channels as int);
        assert((pos_ms as int) * ((sample_rate as int) * (channels as int) * 2)
            <= 0xffff_ffff_ffff_ffff * 0x2_0000_0000_0000) by (nonlinear_arith)
            requires
                0 <= pos_ms as int <= 0xffff_ffff_ffff_ffffint,
                0 <= (sample_rate as int) * (channels as int) * 2 <= 0x2_0000_0000_0000int,
        ;
    }
    let bps: u128 = sample_rate as u128 * channels as u128 * 2;
    let target128: u128 = pos_ms as u128 * bps / 1000;
    if target128 >= len as u128 {
        return None;
    }
    let target: usize = target128 as usize;
    let frame: usize = channels as usize * 2;
    proof {
        let t = target as int;
        let f = (channels as int) * 2;
        lemma_mod_decreases(t as nat, f as nat);
        lemma_fundamental_div_mod(t, f);
        lemma_mul_is_commutative(f, t / f);
        lemma_mod_multiples_basic(t / f, f);
        assert(t - t % f == (t / f) * f);
    }
    Some(target - target % frame)
}

impl StreamingSource {
    /// Whether a decode context is live.
    pub open spec fn has_decoder(&self) -> bool {
        self.decoder is Some
    }

    /// Audio parameters are placeholders (two channels, 44100 Hz) until a
    /// decode context discovers the real ones; both stay at least one.
    pub open spec fn wf(&self) -> bool {
        &&& self.buf.wf()
        &&& self.sample_rate >= 1
        &&& self.channels >= 1
    }

    /// Bytes of PCM data per second of audio, two bytes per sample per
    /// channel.
    pub open spec fn bytes_per_second(&self) -> int {
        self.sample_rate * self.channels * 2
    }

    /// Bytes per whole sample frame; decoder resumption must align here.
    pub open spec fn frame_size(&self) -> int {
        self.channels * 2
    }

    /// Estimated byte offset of a moment `pos_ms` into the track.
    pub open spec fn seek_byte_target(&self, pos_ms: int) -> int {
        pos_ms * self.bytes_per_second() / 1000
    }

    /// Estimated duration covered by the bytes buffered so far, in
    /// milliseconds. Provisional until the stream ends.
    pub open spec fn buffered_ms(&self) -> int {
        (self.buf.bytes().len() as int) * 1000 / self.bytes_per_second()
    }

    /// Estimated total duration of the buffered audio, in milliseconds:
    /// whole sample frames buffered, divided by the sample rate.
    pub open spec fn total_duration_ms_spec(&self) -> int {
        ((self.buf.bytes().len() as int) / 2 / (self.channels as int)) * 1000 / (
        self.sample_rate as int)
    }

    /// The parts of the source a given operation leaves alone.
    pub open spec fn same_store(&self, other: &Self) -> bool {
        &&& self.buf.bytes() == other.buf.bytes()
        &&& self.buf.ended() == other.buf.ended()
    }

    pub open spec fn same_params(&self, other: &Self) -> bool {
        &&& self.sample_rate == other.sample_rate
        &&& self.channels == other.channels
    }

    /// A fresh source over an empty store, with placeholder parameters and no
    /// decode context.
    pub fn new() -> (s: StreamingSource)
        ensures
            s.wf(),
            s.buf.bytes() =~= Seq::<u8>::empty(),
            s.buf.cursor() == 0,
            !s.buf.ended(),
            s.sample_rate == 44100,
            s.channels == 2,
            !s.has_decoder(),
    {
        StreamingSource {
            buf: SharedBuffer::new(),
            sample_rate: 44100,
            channels: 2,
            decoder: None,
            context_bytes: Ghost(Seq::empty()),
        }
    }

    /// Rewind to the start of the buffered bytes and discard the decode
    /// context; the pull loop rebuilds one lazily.
    pub fn reset(&mut self)
        requires
            old(self).wf(),
        ensures
            final(self).wf(),
            final(self).same_store(old(self)),
            final(self).same_params(old(self)),
            final(self).buf.cursor() == 0,
            !final(self).has_decoder(),
    {
        self.buf.set_cursor(0);
        self.decoder = None;
    }

    pub fn channels(&self) -> (c: u16)
        ensures
            c == self.channels,
    {
        self.channels
    }

    pub fn sample_rate(&self) -> (r: u32)
        ensures
            r == self.sample_rate,
    {
        self.sample_rate
    }

    /// Byte-estimate seek. The buffered payload is probed for its real
    /// parameters (a fresh context over a copy of the whole store; discovery
    /// overrides the earlier values), and the estimated byte offset of
    /// `pos_ms` under those parameters is computed by `seek_offset`. When it
    /// lands inside the buffered bytes the cursor moves there — aligned down
    /// to a whole sample frame, never past the buffer — and the stale
    /// context is discarded so decoding resumes from the new offset.
    /// Success is owed whenever the payload decodes and the estimate lands
    /// inside the buffer. Otherwise — estimate at or beyond the buffered
    /// bytes, or a payload the probe does not recognize — the seek is
    /// refused as not supported and the cursor stays; the caller falls back
    /// to a deferred seek.
    pub fn try_seek(&mut self, pos_ms: u64) -> (r: Result<(), SeekError>)
        requires
            old(self).wf(),
        ensures
            final(self).wf(),
            final(self).same_store(old(self)),
            !decodes(old(self).buf.bytes()) ==> r is Err && *final(self) == *old(self),
            decodes(old(self).buf.bytes()) ==> (r is Ok <==> final(self).seek_byte_target(
                pos_ms as int,
            ) < old(self).buf.bytes().len()),
            r is Ok ==> ({
                let target = final(self).seek_byte_target(pos_ms as int);
                &&& target < old(self).buf.bytes().len()
                &&& final(self).buf.cursor() == target - (target % final(self).frame_size())
                &&& final(self).buf.cursor() % final(self).frame_size() == 0
                &&& final(self).buf.cursor() <= target
                &&& !final(self).has_decoder()
            }),
            r is Err ==> ({
                &&& final(self).buf.cursor() == old(self).buf.cursor()
                &&& final(self).decoder == old(self).decoder
                &&& final(self).context_bytes == old(self).context_bytes
            }),
    {
        let snapshot = self.buf.contents();
        match decoder_new(snapshot) {
            None => Err(SeekError::NotSupported),
            Some(probe) => {
                let rate = decoder_sample_rate(&probe);
                let ch = decoder_channels(&probe);
                self.sample_rate = if rate == 0 {
                    1
                } else {
                    rate
                };
                self.channels = if ch == 0 {
                    1
                } else {
                    ch
                };
                match seek_offset(self.sample_rate, self.channels, pos_ms, self.buf.len()) {
                    None => Err(SeekError::NotSupported),
                    Some(aligned) => {
                        self.buf.set_cursor(aligned);
                        self.decoder = None;
                        Ok(())
                    },
                }
            },
        }
    }

    /// Raw byte reposition of the cursor. The new position must land inside
    /// the buffered bytes, else the request is refused unchanged; on success
    /// the decode context is dropped and the new position returned.
    pub fn seek(&mut self, pos: SeekFrom) -> (r: Result<u64, AppError>)
        requires
            old(self).wf(),
        ensures
            final(self).wf(),
            final(self).same_store(old(self)),
            final(self).same_params(old(self)),
            ({
                let new_pos = match pos {
                    SeekFrom::Start(o) => o as int,
                    SeekFrom::Current(o) => old(self).buf.cursor() + o,
                    SeekFrom::End(o) => old(self).buf.bytes().len() + o,
                };
                if 0 <= new_pos <= old(self).buf.bytes().len() {
                    &&& r matches Ok(p) && p == new_pos
                    &&& final(self).buf.cursor() == new_pos
                    &&& !final(self).has_decoder()
                } else {
                    &&& r matches Err(e) && e is SeekError
                    &&& final(self).buf.cursor() == old(self).buf.cursor()
                    &&& final(self).decoder == old(self).decoder
                }
            }),
    {
        let len = self.buf.len();
        let cursor = len - self.buf.available();
        let new_pos: i128 = match pos {
            SeekFrom::Start(o) => o as i128,
            SeekFrom::Current(o) => cursor as i128 + o as i128,
            SeekFrom::End(o) => len as i128 + o as i128,
        };
        if new_pos < 0 || new_pos > len as i128 {
            return Err(AppError::SeekError(String::from_str("Invalid seek position")));
        }
        let p = new_pos as usize;
        self.buf.set_cursor(p);
        self.decoder = None;
        Ok(p as u64)
    }

    /// Read up to `n` raw bytes at the cursor, in store order. `WouldBlock`
    /// comes back — with nothing consumed — exactly when fewer than `n`
    /// bytes remain and the stream has not ended; the decode context and
    /// parameters are never touched.
    pub fn read(&mut self, n: usize) -> (r: ReadOutcome)
        requires
            old(self).wf(),
        ensures
            final(self).wf(),
            final(self).same_store(old(self)),
            final(self).same_params(old(self)),
            final(self).decoder == old(self).decoder,
            !old(self).buf.ready(n as int) ==> r is WouldBlock && final(self).buf.cursor() == old(
                self,
            ).buf.cursor(),
            old(self).buf.ready(n as int) ==> ({
                let take = old(self).buf.take_len(n as int);
                &&& r matches ReadOutcome::Data(d) && d@ == old(self).buf.bytes().subrange(
                    old(self).buf.cursor(),
                    old(self).buf.cursor() + take,
                )
                &&& final(self).buf.cursor() == old(self).buf.cursor() + take
            }),
    {
        self.buf.read(n)
    }

    /// One decision of the pull loop. A live context is used as it stands.
    /// Otherwise, if undecoded bytes remain, a context is rebuilt over
    /// exactly those bytes — consumed in append order, once — and the
    /// parameters it discovers (kept at least one) override the earlier
    /// ones — the context comes up exactly when the handed bytes decode;
    /// when they do not, the source keeps waiting, or reports exhaustion if
    /// nothing more can arrive. With nothing buffered
    /// the decision is exhaustion or waiting by the end-of-stream flag
    /// alone.
    pub fn pull_step(&mut self) -> (r: PullStep)
        requires
            old(self).wf(),
        ensures
            final(self).wf(),
            final(self).same_store(old(self)),
            old(self).has_decoder() ==> r == PullStep::Sample && *final(self) == *old(self),
            !old(self).has_decoder() && old(self).buf.cursor() < old(self).buf.bytes().len()
                ==> ({
                &&& final(self).buf.cursor() == final(self).buf.bytes().len()
                &&& (r == PullStep::Sample <==> final(self).has_decoder())
                &&& (final(self).has_decoder() <==> decodes(
                    old(self).buf.bytes().subrange(
                        old(self).buf.cursor(),
                        old(self).buf.bytes().len() as int,
                    ),
                ))
                &&& final(self).has_decoder() ==> final(self).context_bytes@ == old(
                    self,
                ).buf.bytes().subrange(
                    old(self).buf.cursor(),
                    old(self).buf.bytes().len() as int,
                )
                &&& !final(self).has_decoder() ==> final(self).same_params(old(self)) && (
                if old(self).buf.ended() {
                    r == PullStep::Finished
                } else {
                    r == PullStep::Wait
                })
            }),
            !old(self).has_decoder() && old(self).buf.cursor() == old(self).buf.bytes().len()
                ==> *final(self) == *old(self) && (if old(self).buf.ended() {
                r == PullStep::Finished
            } else {
                r == PullStep::Wait
            }),
    {
        if self.decoder.is_some() {
            return PullStep::Sample;
        }
        let avail = self.buf.available();
        if avail > 0 {
            match self.buf.read(avail) {
                ReadOutcome::Data(d) => {
                    let ghost handed = d@;
                    match decoder_new(d) {
                        Some(dec) => {
                            let rate = decoder_sample_rate(&dec);
                            let ch = decoder_channels(&dec);
                            self.sample_rate = if rate == 0 {
                                1
                            } else {
                                rate
                            };
                            self.channels = if ch == 0 {
                                1
                            } else {
                                ch
                            };
                            self.decoder = Some(dec);
                            self.context_bytes = Ghost(handed);
                            PullStep::Sample
                        },
                        None => {
                            if self.buf.is_ended() {
                                PullStep::Finished
                            } else {
                                PullStep::Wait
                            }
                        },
                    }
                },
                ReadOutcome::WouldBlock => {
                    assert(false);
                    PullStep::Wait
                },
            }
        } else if self.buf.is_ended() {
            PullStep::Finished
        } else {
            PullStep::Wait
        }
    }

    /// The live decode context stopped yielding samples: drop it so the next
    /// pull decision rebuilds over whatever has arrived since.
    pub fn decoder_exhausted(&mut self)
        requires
            old(self).wf(),
        ensures
            final(self).wf(),
            final(self).same_store(old(self)),
            final(self).same_params(old(self)),
            final(self).buf.cursor() == old(self).buf.cursor(),
            !final(self).has_decoder(),
    {
        self.decoder = None;
    }

    /// Samples left in the live context's current span, where the context
    /// knows it; nothing without a context.
    pub fn current_span_len(&self) -> (r: Option<usize>)
        ensures
            !self.has_decoder() ==> r is None,
    {
        match &self.decoder {
            Some(d) => decoder_current_span_len(d),
            None => None,
        }
    }

    /// Estimated duration covered by the buffered bytes, in milliseconds,
    /// saturating at `u64::MAX`. Provisional until the stream ends.
    pub fn buffered_duration_ms(&self) -> (ms: u64)
        requires
            self.wf(),
        ensures
            ms == if self.buffered_ms() > u64::MAX {
                u64::MAX as int
            } else {
                self.buffered_ms()
            },
    {
        proof {
            lemma_bps_in_range(self.sample_rate as int, self.channels as int);
        }
        let bps: u128 = self.sample_rate as u128 * self.channels as u128 * 2;
        let v: u128 = self.buf.len() as u128 * 1000 / bps;
        if v > u64::MAX as u128 {
            u64::MAX
        } else {
            v as u64
        }
    }

    /// Estimated total duration of the buffered audio in milliseconds,
    /// saturating at `u64::MAX`: an estimate from whole sample frames until
    /// the stream is complete.
    pub fn total_duration_ms(&self) -> (ms: u64)
        requires
            self.wf(),
        ensures
            ms == if self.total_duration_ms_spec() > u64::MAX {
                u64::MAX as int
            } else {
                self.total_duration_ms_spec()
            },
    {
        let samples: u128 = self.buf.len() as u128 / 2 / self.channels as u128;
        let v: u128 = samples * 1000 / self.sample_rate as u128;
        if v > u64::MAX as u128 {
            u64::MAX
        } else {
            v as u64
        }
    }
}

} // verus!
