use actix_http::Payload as ChunkStream;
use vstd::prelude::*;

verus! {

#[verifier::external_type_specification]
#[verifier::external_body]
#[verifier::reject_recursive_types(S)]
pub struct ExChunkStream<S>(ChunkStream<S>);

/// The raw chunk stream of a request, handed to the caller as it is.
///
/// No size or media-type policy applies to it: the caller takes on both.
///
/// `S` is the stream type that the transport layer boxes its chunks in.
#[verifier::reject_recursive_types(S)]
pub struct Payload<S>(pub ChunkStream<S>);

impl<S> Payload<S> {
    /// Unwraps the inner chunk stream.
    pub fn into_inner(self) -> (r: ChunkStream<S>)
        ensures
            r == self.0,
    {
        self.0
    }
}

} // verus!
