//! The decode primitive, an assumed outside capability: rodio turns a
//! contiguous byte buffer into PCM samples and reports the discovered audio
//! parameters. Only the declarations here are trusted; when a context is
//! built, over which bytes, and what the pipeline does with the outcome is
//! verified in `source`. Whether a buffer decodes is deterministic in the
//! bytes and carries the name `decodes`, so callers can owe success; the
//! parameters a context reports are left open — the verified code holds for
//! every outcome — and the samples themselves are drawn straight from the
//! context by the embedding.

use vstd::prelude::*;
use std::io::Cursor;

verus! {

/// A decode context over an owned byte buffer. Opaque to the verifier —
/// rodio's decoder carries generic bounds it cannot take — so the whole
/// struct stands behind `external_body`; the embedding pulls the PCM
/// samples straight from `inner`.
#[verifier::external_body]
pub struct ByteDecoder {
    pub inner: rodio::Decoder<Cursor<Vec<u8>>>,
}

/// Whether rodio's probe recognizes these bytes as a decodable container.
/// The probe is a pure parse of an in-memory buffer — the same bytes always
/// decide the same way — so its success is a function of the bytes alone.
/// Which byte sequences decode is left entirely open.
pub uninterp spec fn decodes(bytes: Seq<u8>) -> bool;

/// Relies on rodio::Decoder::new: a decode context over exactly the given
/// bytes, or nothing when they are not recognized as a supported container
/// — deterministically in the bytes, which `decodes` names.
#[verifier::external_body]
pub(crate) fn decoder_new(bytes: Vec<u8>) -> (r: Option<ByteDecoder>)
    ensures
        r is Some <==> decodes(bytes@),
{
    rodio::Decoder::new(Cursor::new(bytes)).ok().map(|inner| ByteDecoder { inner })
}

/// Relies on rodio::Source::sample_rate: the sample rate the context
/// discovered. Nothing is assumed about the value.
#[verifier::external_body]
pub(crate) fn decoder_sample_rate(d: &ByteDecoder) -> u32 {
    rodio::Source::sample_rate(&d.inner)
}

/// Relies on rodio::Source::channels: the channel count the context
/// discovered. Nothing is assumed about the value.
#[verifier::external_body]
pub(crate) fn decoder_channels(d: &ByteDecoder) -> u16 {
    rodio::Source::channels(&d.inner)
}

/// Relies on rodio::Source::current_span_len: how many samples remain in the
/// context's current span, where the context knows it.
#[verifier::external_body]
pub(crate) fn decoder_current_span_len(d: &ByteDecoder) -> Option<usize> {
    rodio::Source::current_span_len(&d.inner)
}

} // verus!
