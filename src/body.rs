//! The body aggregator: pulls chunks one at a time, enforces the size ceiling
//! against both the declared length and the bytes that arrive, and freezes the
//! accumulated bytes into one immutable sequence.
use crate::bytes_buf::{
    buffer_append, buffer_len, buffer_of, buffer_take_frozen, buffer_with_capacity, bytes_len,
    bytes_of,
};
use crate::length::{declared_length, parse_declared_length};
use actix_http::error::PayloadError;
use bytes::{Bytes, BytesMut};
use vstd::prelude::*;

verus! {

#[verifier::external_type_specification]
#[verifier::external_body]
pub struct ExPayloadError(PayloadError);

/// The size ceiling, in bytes, where no policy sets another (2^18).
pub const DEFAULT_LIMIT: usize = 262_144;

/// The capacity that the accumulation buffer starts with.
pub const INITIAL_CAPACITY: usize = 8192;

/// Why a body could not be aggregated.
#[derive(Debug)]
pub enum BodyError {
    /// The declared or the accumulated length exceeds the ceiling.
    Overflow,
    /// The size header is present but holds no unsigned integer.
    UnknownLength,
    /// The chunk source failed; its error is passed on unchanged.
    Transport(PayloadError),
}

/// The bytes of an optional header value.
pub open spec fn header_bytes(h: Option<&[u8]>) -> Option<Seq<u8>> {
    match h {
        Some(v) => Some(v@),
        None => None,
    }
}

/// The declared length that a body learns from its optional size header.
pub open spec fn declared(h: Option<Seq<u8>>) -> Option<usize> {
    match h {
        Some(v) => declared_length(v),
        None => None,
    }
}

/// The error that a body is armed with before any chunk is read, given its
/// optional size header and its ceiling.
pub open spec fn latched_error(h: Option<Seq<u8>>, limit: usize) -> Option<BodyError> {
    match h {
        None => None,
        Some(v) => match declared_length(v) {
            None => Some(BodyError::UnknownLength),
            Some(l) => if l > limit {
                Some(BodyError::Overflow)
            } else {
                None
            },
        },
    }
}

/// The latched error after the ceiling is set to `limit`: a known declared
/// length decides it anew; otherwise the earlier one stays.
pub open spec fn rearmed(length: Option<usize>, latched: Option<BodyError>, limit: usize) -> Option<
    BodyError,
> {
    match length {
        Some(l) => if l > limit {
            Some(BodyError::Overflow)
        } else {
            None
        },
        None => latched,
    }
}

/// Whether appending `chunk` to `buffered` would pass the ceiling.
pub open spec fn overflows(buffered: Seq<u8>, chunk: Seq<u8>, limit: usize) -> bool {
    buffered.len() + chunk.len() > limit
}

/// What draining `chunks` after `acc` gives: the whole byte sequence, or
/// nothing where some chunk would pass the ceiling.
pub open spec fn aggregate(limit: usize, acc: Seq<u8>, chunks: Seq<Seq<u8>>) -> Option<Seq<u8>>
    decreases chunks.len(),
{
    if chunks.len() == 0 {
        Some(acc)
    } else if overflows(acc, chunks[0], limit) {
        None
    } else {
        aggregate(limit, acc + chunks[0], chunks.drop_first())
    }
}

/// The bytes of each chunk in a list.
pub open spec fn chunks_of(chunks: Seq<Bytes>) -> Seq<Seq<u8>> {
    chunks.map_values(|c: Bytes| bytes_of(c))
}

/// What running `body` to completion over `chunks` gives: its latched error,
/// if it has one, else the aggregated bytes or overflow.
pub open spec fn drained(body: HttpMessageBody, chunks: Seq<Seq<u8>>) -> Result<Seq<u8>, BodyError> {
    match body.spec_latched() {
        Some(e) => Err(e),
        None => match aggregate(body.spec_limit(), body.spec_buffer(), chunks) {
            Some(b) => Ok(b),
            None => Err(BodyError::Overflow),
        },
    }
}

/// What a fresh body with the size header `h` and the ceiling `limit` gives
/// over `chunks`.
pub open spec fn body_outcome(limit: usize, h: Option<Seq<u8>>, chunks: Seq<Seq<u8>>) -> Result<
    Seq<u8>,
    BodyError,
> {
    match latched_error(h, limit) {
        Some(e) => Err(e),
        None => match aggregate(limit, Seq::empty(), chunks) {
            Some(b) => Ok(b),
            None => Err(BodyError::Overflow),
        },
    }
}

/// A future body, before and while it drains its chunk source.
pub struct HttpMessageBody {
    limit: usize,
    length: Option<usize>,
    buf: BytesMut,
    err: Option<BodyError>,
}

impl HttpMessageBody {
    /// The active size ceiling.
    pub closed spec fn spec_limit(&self) -> usize {
        self.limit
    }

    /// The length that the size header declared, where it declared one.
    pub closed spec fn spec_length(&self) -> Option<usize> {
        self.length
    }

    /// The error to surface on the next poll, before any chunk is read.
    pub closed spec fn spec_latched(&self) -> Option<BodyError> {
        self.err
    }

    /// The bytes accumulated so far.
    pub closed spec fn spec_buffer(&self) -> Seq<u8> {
        buffer_of(self.buf)
    }

    /// Creates a body from the bytes of the request's size header, if it has
    /// one, with the default ceiling.
    pub fn new(content_length: Option<&[u8]>) -> (r: Self)
        ensures
            r.spec_limit() == DEFAULT_LIMIT,
            r.spec_length() == declared(header_bytes(content_length)),
            r.spec_latched() == latched_error(header_bytes(content_length), DEFAULT_LIMIT),
            r.spec_buffer() == Seq::<u8>::empty(),
    {
        let mut length: Option<usize> = None;
        let mut err: Option<BodyError> = None;
        if let Some(h) = content_length {
            match parse_declared_length(h) {
                Some(l) => {
                    if l > DEFAULT_LIMIT {
                        err = Some(BodyError::Overflow);
                    }
                    length = Some(l);
                },
                None => {
                    err = Some(BodyError::UnknownLength);
                },
            }
        }
        HttpMessageBody {
            limit: DEFAULT_LIMIT,
            length,
            buf: buffer_with_capacity(INITIAL_CAPACITY),
            err,
        }
    }

    /// Sets the size ceiling; call it before the first poll.
    pub fn limit(self, limit: usize) -> (r: Self)
        ensures
            r.spec_limit() == limit,
            r.spec_length() == self.spec_length(),
            r.spec_latched() == rearmed(self.spec_length(), self.spec_latched(), limit),
            r.spec_buffer() == self.spec_buffer(),
    {
        let mut this = self;
        if let Some(l) = this.length {
            this.err = if l > limit {
                Some(BodyError::Overflow)
            } else {
                None
            };
        }
        this.limit = limit;
        this
    }

    /// Takes the latched error, if any: a poll surfaces it before it reads
    /// a chunk.
    pub fn poll_latched(&mut self) -> (r: Option<BodyError>)
        ensures
            r == old(self).spec_latched(),
            final(self).spec_latched() is None,
            final(self).spec_limit() == old(self).spec_limit(),
            final(self).spec_length() == old(self).spec_length(),
            final(self).spec_buffer() == old(self).spec_buffer(),
    {
        let r = self.err.take();
        r
    }

    /// Appends one chunk, unless that would pass the ceiling.
    fn append_chunk(&mut self, chunk: &Bytes) -> (r: bool)
        ensures
            r == !overflows(old(self).spec_buffer(), bytes_of(*chunk), old(self).spec_limit()),
            final(self).spec_buffer() == if r {
                old(self).spec_buffer() + bytes_of(*chunk)
            } else {
                old(self).spec_buffer()
            },
            final(self).spec_limit() == old(self).spec_limit(),
            final(self).spec_length() == old(self).spec_length(),
            final(self).spec_latched() == old(self).spec_latched(),
    {
        let held = buffer_len(&self.buf);
        let incoming = bytes_len(chunk);
        if held > self.limit || incoming > self.limit - held {
            false
        } else {
            buffer_append(&mut self.buf, chunk);
            true
        }
    }

    /// Handles what the chunk source yielded: a chunk, a transport error, or
    /// its end (`None`). Returns the outcome once the body is complete, or
    /// `None` while more chunks are awaited.
    pub fn feed(&mut self, item: Option<Result<Bytes, PayloadError>>) -> (r: Option<
        Result<Bytes, BodyError>,
    >)
        ensures
            final(self).spec_limit() == old(self).spec_limit(),
            final(self).spec_length() == old(self).spec_length(),
            final(self).spec_latched() == old(self).spec_latched(),
            match item {
                None => r is Some && r->Some_0 is Ok && bytes_of(r->Some_0->Ok_0)
                    == old(self).spec_buffer() && final(self).spec_buffer() == Seq::<u8>::empty(),
                Some(Err(e)) => r == Some(Err::<Bytes, BodyError>(BodyError::Transport(e))),
                Some(Ok(c)) => if overflows(old(self).spec_buffer(), bytes_of(c), old(self).spec_limit()) {
                    r == Some(Err::<Bytes, BodyError>(BodyError::Overflow))
                } else {
                    r is None && final(self).spec_buffer() == old(self).spec_buffer() + bytes_of(c)
                },
            },
    {
        match item {
            None => Some(Ok(buffer_take_frozen(&mut self.buf))),
            Some(Err(e)) => Some(Err(BodyError::Transport(e))),
            Some(Ok(c)) => {
                if self.append_chunk(&c) {
                    None
                } else {
                    Some(Err(BodyError::Overflow))
                }
            },
        }
    }

    /// Runs the body to completion over a chunk source whose chunks are all at
    /// hand, in order, followed by its end.
    pub fn drive(self, chunks: &Vec<Bytes>) -> (r: Result<Bytes, BodyError>)
        ensures
            match drained(self, chunks_of(chunks@)) {
                Ok(b) => r is Ok && bytes_of(r->Ok_0) == b,
                Err(e) => r == Err::<Bytes, BodyError>(e),
            },
    {
        let mut this = self;
        if let Some(e) = this.poll_latched() {
            return Err(e);
        }
        let ghost limit = this.spec_limit();
        let ghost all = chunks_of(chunks@);
        let ghost goal = aggregate(limit, this.spec_buffer(), all);
        assert(all.subrange(0, all.len() as int) =~= all);
        let mut i: usize = 0;
        #[verifier::loop_isolation(false)]
        while i < chunks.len()
            invariant
                i <= chunks@.len(),
                all.len() == chunks@.len(),
                all == chunks_of(chunks@),
                this.spec_limit() == limit,
                goal == aggregate(limit, this.spec_buffer(), all.subrange(i as int, all.len() as int)),
            decreases chunks@.len() - i,
        {
            let ghost rest = all.subrange(i as int, all.len() as int);
            assert(rest[0] == bytes_of(chunks@[i as int]));
            assert(rest.drop_first() =~= all.subrange(i + 1, all.len() as int));
            if !this.append_chunk(&chunks[i]) {
                assert(aggregate(limit, this.spec_buffer(), rest) is None);
                return Err(BodyError::Overflow);
            }
            i = i + 1;
        }
        assert(all.subrange(i as int, all.len() as int) =~= Seq::<Seq<u8>>::empty());
        match this.feed(None) {
            Some(r) => r,
            None => Err(BodyError::Overflow),
        }
    }
}

proof fn lemma_aggregate_within(limit: usize, acc: Seq<u8>, chunks: Seq<Seq<u8>>)
    requires
        acc.len() + chunks.flatten().len() <= limit,
    ensures
        aggregate(limit, acc, chunks) == Some(acc + chunks.flatten()),
    decreases chunks.len(),
{
    if chunks.len() == 0 {
        assert(acc + chunks.flatten() =~= acc);
    } else {
        let rest = chunks.drop_first();
        assert(chunks.flatten() == chunks[0] + rest.flatten());
        lemma_aggregate_within(limit, acc + chunks[0], rest);
        assert(acc + chunks[0] + rest.flatten() =~= acc + chunks.flatten());
    }
}

proof fn lemma_aggregate_beyond(limit: usize, acc: Seq<u8>, chunks: Seq<Seq<u8>>)
    requires
        acc.len() <= limit,
        acc.len() + chunks.flatten().len() > limit,
    ensures
        aggregate(limit, acc, chunks) is None,
    decreases chunks.len(),
{
    if chunks.len() > 0 && !overflows(acc, chunks[0], limit) {
        let rest = chunks.drop_first();
        assert(chunks.flatten() == chunks[0] + rest.flatten());
        lemma_aggregate_beyond(limit, acc + chunks[0], rest);
    }
}

proof fn lemma_failed_prefix(limit: usize, acc: Seq<u8>, chunks: Seq<Seq<u8>>, j: int)
    requires
        0 <= j <= chunks.len(),
        aggregate(limit, acc, chunks.take(j)) is None,
    ensures
        aggregate(limit, acc, chunks) is None,
    decreases j,
{
    let p = chunks.take(j);
    assert(p.len() > 0);
    assert(p[0] == chunks[0]);
    if !overflows(acc, chunks[0], limit) {
        assert(p.drop_first() =~= chunks.drop_first().take(j - 1));
        lemma_failed_prefix(limit, acc + chunks[0], chunks.drop_first(), j - 1);
    }
}

/// A body of at most `limit` bytes aggregates to exactly its bytes, however
/// it is cut into chunks.
pub proof fn lemma_chunking_invariance(limit: usize, chunks: Seq<Seq<u8>>)
    requires
        chunks.flatten().len() <= limit,
    ensures
        aggregate(limit, Seq::empty(), chunks) == Some(chunks.flatten()),
{
    lemma_aggregate_within(limit, Seq::empty(), chunks);
    assert(Seq::<u8>::empty() + chunks.flatten() =~= chunks.flatten());
}

/// A body of more than `limit` bytes fails with overflow, and it fails by the
/// chunk `k` at which the running length first passes `limit`: the chunks up
/// to and including it already fail, whatever follows them.
pub proof fn lemma_overflow_by_first_excess(limit: usize, chunks: Seq<Seq<u8>>, k: int)
    requires
        0 <= k < chunks.len(),
        chunks.take(k + 1).flatten().len() > limit,
    ensures
        aggregate(limit, Seq::empty(), chunks.take(k + 1)) is None,
        forall|j: int| k < j <= chunks.len() ==> aggregate(limit, Seq::empty(), #[trigger] chunks.take(j)) is None,
        aggregate(limit, Seq::empty(), chunks) is None,
{
    lemma_aggregate_beyond(limit, Seq::empty(), chunks.take(k + 1));
    assert forall|j: int| k < j <= chunks.len() implies aggregate(limit, Seq::empty(), #[trigger] chunks.take(j)) is None by {
        assert(chunks.take(j).take(k + 1) =~= chunks.take(k + 1));
        lemma_failed_prefix(limit, Seq::empty(), chunks.take(j), k + 1);
    }
    assert(chunks.take(chunks.len() as int) =~= chunks);
}

/// A body of more than `limit` bytes fails with overflow, however it is cut
/// into chunks.
pub proof fn lemma_overflow_whole(limit: usize, chunks: Seq<Seq<u8>>)
    requires
        chunks.flatten().len() > limit,
    ensures
        aggregate(limit, Seq::empty(), chunks) is None,
{
    lemma_aggregate_beyond(limit, Seq::empty(), chunks);
}

/// A body created from a size header and then given the ceiling `limit` is
/// armed exactly as that header and ceiling decide, whatever the ceiling it
/// was created with.
pub proof fn lemma_limit_after_new(h: Option<Seq<u8>>, first: usize, limit: usize)
    ensures
        rearmed(declared(h), latched_error(h, first), limit) == latched_error(h, limit),
{
}

/// A declared length above the ceiling arms the body with overflow, so it
/// fails before it reads any chunk, however short the stream really is.
pub proof fn lemma_declared_overflow(h: Seq<u8>, limit: usize)
    requires
        declared_length(h) matches Some(l) && l > limit,
    ensures
        latched_error(Some(h), limit) == Some(BodyError::Overflow),
{
}

/// A size header that holds no unsigned integer arms the body with the
/// unknown-length error, whatever the ceiling.
pub proof fn lemma_unparseable_length(h: Seq<u8>, limit: usize)
    requires
        declared_length(h) is None,
    ensures
        latched_error(Some(h), limit) == Some(BodyError::UnknownLength),
{
}

} // verus!
