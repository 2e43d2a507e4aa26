//! The shared byte store behind a streaming playback session.
//!
//! A producer appends chunks as they arrive from the network (or are pushed by
//! the caller); a single consumer reads bytes in order through a private
//! cursor. The store also carries the end-of-stream flag. Blocking is not done
//! here: a read that cannot be satisfied yet reports `WouldBlock`, and the
//! embedding is expected to wait for the producer's data-arrived signal and
//! try again, so a read never hands out bytes before they are available.

use vstd::prelude::*;

verus! {

/// What a single read attempt produced.
///
/// `Data` carries the bytes that were read; `WouldBlock` says the request
/// cannot be satisfied yet (not enough bytes and the stream has not ended),
/// and the caller should wait for more data before retrying.
pub enum ReadOutcome {
    Data(Vec<u8>),
    WouldBlock,
}

/// Append-only byte store with a consumer cursor and an end-of-stream flag.
pub struct SharedBuffer {
    data: Vec<u8>,
    cursor: usize,
    ended: bool,
}

impl SharedBuffer {
    /// All bytes appended so far, in arrival order.
    pub closed spec fn bytes(&self) -> Seq<u8> {
        self.data@
    }

    /// The consumer's read position into `bytes()`.
    pub closed spec fn cursor(&self) -> int {
        self.cursor as int
    }

    /// Whether the producer has marked the stream as finished.
    pub closed spec fn ended(&self) -> bool {
        self.ended
    }

    /// The cursor never runs past the end of the store.
    pub open spec fn wf(&self) -> bool {
        0 <= self.cursor() <= self.bytes().len()
    }

    /// A read of `n` bytes may complete: either `n` bytes lie beyond the
    /// cursor, or the stream has ended (in which case whatever remains is
    /// handed out).
    pub open spec fn ready(&self, n: int) -> bool {
        self.cursor() + n <= self.bytes().len() || self.ended()
    }

    /// How many bytes a completed read of `n` hands out: `n`, or everything
    /// that remains if the stream ended short of `n`.
    pub open spec fn take_len(&self, n: int) -> int {
        let avail = self.bytes().len() - self.cursor();
        if n <= avail {
            n
        } else {
            avail
        }
    }

    pub fn new() -> (b: SharedBuffer)
        ensures
            b.wf(),
            b.bytes() =~= Seq::<u8>::empty(),
            b.cursor() == 0,
            !b.ended(),
    {
        SharedBuffer { data: Vec::new(), cursor: 0, ended: false }
    }

    /// Extend the store with one arrived chunk. The cursor and the end flag
    /// are untouched; the producer signals data arrival outside this type.
    pub fn append(&mut self, chunk: &[u8])
        requires
            old(self).wf(),
            old(self).bytes().len() + chunk@.len() <= usize::MAX,
        ensures
            final(self).wf(),
            final(self).bytes() == old(self).bytes() + chunk@,
            final(self).cursor() == old(self).cursor(),
            final(self).ended() == old(self).ended(),
    {
        let mut i: usize = 0;
        while i < chunk.len()
            invariant
                i <= chunk@.len(),
                self.data@ == old(self).data@ + chunk@.subrange(0, i as int),
                self.cursor == old(self).cursor,
                self.ended == old(self).ended,
                old(self).wf(),
                old(self).bytes().len() + chunk@.len() <= usize::MAX,
            decreases chunk@.len() - i,
        {
            self.data.push(chunk[i]);
            assert(self.data@ =~= old(self).data@ + chunk@.subrange(0, i + 1));
            i = i + 1;
        }
        assert(self.data@ =~= old(self).data@ + chunk@);
    }

    /// Mark the stream as finished; nothing else changes.
    pub fn set_ended(&mut self)
        requires
            old(self).wf(),
        ensures
            final(self).wf(),
            final(self).bytes() == old(self).bytes(),
            final(self).cursor() == old(self).cursor(),
            final(self).ended(),
    {
        self.ended = true;
    }

    /// Clear store, cursor and end flag for a fresh playback session. Only
    /// called when no consumer is mid-read.
    pub fn reset(&mut self)
        ensures
            final(self).wf(),
            final(self).bytes() =~= Seq::<u8>::empty(),
            final(self).cursor() == 0,
            !final(self).ended(),
    {
        self.data.clear();
        self.cursor = 0;
        self.ended = false;
    }

    /// A copy of the whole store, cursor untouched — what an out-of-band
    /// probe of the buffered payload reads.
    pub fn contents(&self) -> (out: Vec<u8>)
        requires
            self.wf(),
        ensures
            out@ == self.bytes(),
    {
        let mut out: Vec<u8> = Vec::new();
        let mut i: usize = 0;
        while i < self.data.len()
            invariant
                i <= self.data@.len(),
                out@ == self.data@.subrange(0, i as int),
            decreases self.data@.len() - i,
        {
            out.push(self.data[i]);
            assert(out@ =~= self.data@.subrange(0, i + 1));
            i = i + 1;
        }
        assert(out@ =~= self.data@);
        out
    }

    /// Reposition the consumer cursor (seek support); the store itself and
    /// the end flag are untouched.
    pub fn set_cursor(&mut self, pos: usize)
        requires
            old(self).wf(),
            pos <= old(self).bytes().len(),
        ensures
            final(self).wf(),
            final(self).bytes() == old(self).bytes(),
            final(self).ended() == old(self).ended(),
            final(self).cursor() == pos,
    {
        self.cursor = pos;
    }

    pub fn len(&self) -> (n: usize)
        ensures
            n == self.bytes().len(),
    {
        self.data.len()
    }

    pub fn is_ended(&self) -> (e: bool)
        ensures
            e == self.ended(),
    {
        self.ended
    }

    /// Bytes beyond the cursor that have not been consumed yet.
    pub fn available(&self) -> (n: usize)
        requires
            self.wf(),
        ensures
            n == self.bytes().len() - self.cursor(),
    {
        self.data.len() - self.cursor
    }

    /// Whether a read of `n` bytes would complete right now.
    pub fn read_ready(&self, n: usize) -> (r: bool)
        requires
            self.wf(),
        ensures
            r == self.ready(n as int),
    {
        if self.ended {
            true
        } else {
            n <= self.data.len() - self.cursor
        }
    }

    /// One read attempt. Bytes come out only when the request is satisfiable
    /// (enough bytes beyond the cursor, or stream ended): otherwise the state
    /// is untouched and `WouldBlock` tells the caller to wait for the
    /// producer's signal. On success the cursor advances past exactly the
    /// bytes handed out, in store order.
    pub fn read(&mut self, n: usize) -> (r: ReadOutcome)
        requires
            old(self).wf(),
        ensures
            final(self).wf(),
            final(self).bytes() == old(self).bytes(),
            final(self).ended() == old(self).ended(),
            !old(self).ready(n as int) ==> r is WouldBlock && final(self).cursor() == old(
                self,
            ).cursor(),
            old(self).ready(n as int) ==> ({
                let take = old(self).take_len(n as int);
                &&& r matches ReadOutcome::Data(d) && d@ == old(self).bytes().subrange(
                    old(self).cursor(),
                    old(self).cursor() + take,
                )
                &&& final(self).cursor() == old(self).cursor() + take
            }),
    {
        let avail = self.data.len() - self.cursor;
        let take: usize = if n <= avail {
            n
        } else if self.ended {
            avail
        } else {
            return ReadOutcome::WouldBlock;
        };
        let mut out: Vec<u8> = Vec::new();
        let mut i: usize = 0;
        while i < take
            invariant
                i <= take,
                self.cursor + take <= self.data.len(),
                out@ == self.data@.subrange(self.cursor as int, self.cursor + i),
                self == old(self),
            decreases take - i,
        {
            out.push(self.data[self.cursor + i]);
            assert(out@ =~= self.data@.subrange(self.cursor as int, self.cursor + i + 1));
            i = i + 1;
        }
        self.cursor = self.cursor + take;
        ReadOutcome::Data(out)
    }
}

/// The bytes of `chunks` laid end to end, in order.
pub open spec fn concat_chunks(chunks: Seq<Seq<u8>>) -> Seq<u8>
    decreases chunks.len(),
{
    if chunks.len() == 0 {
        Seq::empty()
    } else {
        chunks[0] + concat_chunks(chunks.drop_first())
    }
}

/// One more appended chunk extends the concatenation at its end, in order:
/// the accumulation step that successive `append` calls realize on the
/// store.
pub proof fn lemma_concat_chunks_snoc(chunks: Seq<Seq<u8>>, c: Seq<u8>)
    ensures
        concat_chunks(chunks.push(c)) =~= concat_chunks(chunks) + c,
    decreases chunks.len(),
{
    if chunks.len() == 0 {
        assert(chunks.push(c)[0] == c);
        assert(chunks.push(c).drop_first() =~= Seq::<Seq<u8>>::empty());
        assert(concat_chunks(chunks.push(c)) == c + concat_chunks(
            chunks.push(c).drop_first(),
        ));
        assert(c + Seq::<u8>::empty() =~= c);
    } else {
        lemma_concat_chunks_snoc(chunks.drop_first(), c);
        assert(chunks.push(c)[0] == chunks[0]);
        assert(chunks.push(c).drop_first() =~= chunks.drop_first().push(c));
        assert(concat_chunks(chunks.push(c)) == chunks[0] + concat_chunks(
            chunks.push(c).drop_first(),
        ));
        assert(chunks[0] + (concat_chunks(chunks.drop_first()) + c) =~= (chunks[0]
            + concat_chunks(chunks.drop_first())) + c);
    }
}

/// Law: any sequence of appends followed by one read of the total appended
/// length returns exactly the appended bytes, in order, with no loss,
/// reordering or duplication. By `append`'s contract and
/// `lemma_concat_chunks_snoc`, the store after the appends holds
/// `prefix + concat_chunks(chunks)` with the cursor still at
/// `prefix.len()`, and by `read`'s contract the read returns the store's
/// subrange from the cursor over the appended length — which is shown here to
/// be `concat_chunks(chunks)` itself.
pub proof fn lemma_appends_then_read_round_trip(prefix: Seq<u8>, chunks: Seq<Seq<u8>>)
    ensures
        (prefix + concat_chunks(chunks)).subrange(
            prefix.len() as int,
            (prefix + concat_chunks(chunks)).len() as int,
        ) =~= concat_chunks(chunks),
{
}

} // verus!
