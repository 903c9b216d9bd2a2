//! Decoding an aggregated body as text in the request's charset.
use crate::body::{chunks_of, drained, BodyError, HttpMessageBody};
use crate::bytes_buf::bytes_of;
use crate::config::{BadRequest, Error};
use actix_http::error::PayloadError;
use bytes::Bytes;
use vstd::prelude::*;
use vstd::utf8::{decode_utf8, valid_utf8};

verus! {

/// The text that encoding_rs decodes from `body` in the encoding with the
/// label `label`, without byte-order-mark handling and without replacement,
/// or nothing where the label names no encoding or the bytes are malformed.
pub uninterp spec fn charset_decoded(label: Seq<char>, body: Seq<u8>) -> Option<Seq<char>>;

/// Relies on `std::str::from_utf8`: it succeeds exactly on valid UTF-8, and
/// then holds the characters those bytes encode.
#[verifier::external_body]
fn utf8_text(body: &Bytes) -> (r: Option<String>)
    ensures
        match r {
            Some(s) => valid_utf8(bytes_of(*body)) && s@ == decode_utf8(bytes_of(*body)),
            None => !valid_utf8(bytes_of(*body)),
        },
{
    match std::str::from_utf8(body.as_ref()) {
        Ok(s) => Some(s.to_owned()),
        Err(_) => None,
    }
}

/// Relies on `encoding_rs::Encoding::for_label`, which looks an encoding up by
/// label, and on its `decode_without_bom_handling_and_without_replacement`.
#[verifier::external_body]
fn decode_in(label: &str, body: &Bytes) -> (r: Option<String>)
    ensures
        match r {
            Some(s) => charset_decoded(label@, bytes_of(*body)) == Some(s@),
            None => charset_decoded(label@, bytes_of(*body)) is None,
        },
{
    let enc = match encoding_rs::Encoding::for_label(label.as_bytes()) {
        Some(e) => e,
        None => return None,
    };
    match enc.decode_without_bom_handling_and_without_replacement(body.as_ref()) {
        Some(s) => Some(s.into_owned()),
        None => None,
    }
}

/// The charset of a request's text: UTF-8, decoded strictly, or another
/// encoding, named by its label.
#[derive(Clone, Debug)]
pub enum Charset {
    Utf8,
    Other(String),
}

/// The text that `body` holds in the charset `c`, if it is valid there.
pub open spec fn decoded(c: Charset, body: Seq<u8>) -> Option<Seq<char>> {
    match c {
        Charset::Utf8 => if valid_utf8(body) {
            Some(decode_utf8(body))
        } else {
            None
        },
        Charset::Other(label) => charset_decoded(label@, body),
    }
}

/// The result of decoding `body` in the charset `c`.
pub open spec fn decode_outcome(c: Charset, body: Seq<u8>) -> Result<Seq<char>, Error> {
    match decoded(c, body) {
        Some(s) => Ok(s),
        None => Err(Error::BadRequest(BadRequest::CannotDecodeBody)),
    }
}

/// Decodes an aggregated body in the charset `encoding`.
pub fn bytes_to_string(body: Bytes, encoding: &Charset) -> (r: Result<String, Error>)
    ensures
        match decode_outcome(*encoding, bytes_of(body)) {
            Ok(s) => r is Ok && r->Ok_0@ == s,
            Err(e) => r == Err::<String, Error>(e),
        },
{
    let text = match encoding {
        Charset::Utf8 => utf8_text(&body),
        Charset::Other(label) => decode_in(label.as_str(), &body),
    };
    match text {
        Some(s) => Ok(s),
        None => Err(Error::BadRequest(BadRequest::CannotDecodeBody)),
    }
}

/// A future text: the body aggregator, then one decoding step once it is done.
pub struct StringExtractFut {
    body_fut: HttpMessageBody,
    encoding: Charset,
}

impl StringExtractFut {
    /// The aggregator that gathers the bytes.
    pub closed spec fn spec_body(&self) -> HttpMessageBody {
        self.body_fut
    }

    /// The charset that the bytes are decoded in.
    pub closed spec fn spec_charset(&self) -> Charset {
        self.encoding
    }

    /// Pairs an aggregator with the charset of its request.
    pub fn new(body_fut: HttpMessageBody, encoding: Charset) -> (r: Self)
        ensures
            r.spec_body() == body_fut,
            r.spec_charset() == encoding,
    {
        StringExtractFut { body_fut, encoding }
    }

    /// Takes the aggregator's latched error, if any, before any chunk is read.
    pub fn poll_latched(&mut self) -> (r: Option<Error>)
        ensures
            r == match old(self).spec_body().spec_latched() {
                Some(e) => Some(Error::Payload(e)),
                None => None::<Error>,
            },
            final(self).spec_charset() == old(self).spec_charset(),
            final(self).spec_body().spec_latched() is None,
            final(self).spec_body().spec_limit() == old(self).spec_body().spec_limit(),
            final(self).spec_body().spec_length() == old(self).spec_body().spec_length(),
            final(self).spec_body().spec_buffer() == old(self).spec_body().spec_buffer(),
    {
        match self.body_fut.poll_latched() {
            Some(e) => Some(Error::Payload(e)),
            None => None,
        }
    }

    /// Hands what the chunk source yielded to the aggregator; once the body is
    /// complete, decodes it. Returns `None` while more chunks are awaited.
    pub fn feed(&mut self, item: Option<Result<Bytes, PayloadError>>) -> (r: Option<
        Result<String, Error>,
    >)
        ensures
            final(self).spec_charset() == old(self).spec_charset(),
            final(self).spec_body().spec_limit() == old(self).spec_body().spec_limit(),
            final(self).spec_body().spec_length() == old(self).spec_body().spec_length(),
            final(self).spec_body().spec_latched() == old(self).spec_body().spec_latched(),
            match item {
                None => match decode_outcome(old(self).spec_charset(), old(self).spec_body().spec_buffer()) {
                    Ok(s) => r is Some && r->Some_0 is Ok && r->Some_0->Ok_0@ == s,
                    Err(e) => r == Some(Err::<String, Error>(e)),
                },
                Some(Err(e)) => r == Some(
                    Err::<String, Error>(Error::Payload(BodyError::Transport(e))),
                ),
                Some(Ok(c)) => if crate::body::overflows(
                    old(self).spec_body().spec_buffer(),
                    bytes_of(c),
                    old(self).spec_body().spec_limit(),
                ) {
                    r == Some(Err::<String, Error>(Error::Payload(BodyError::Overflow)))
                } else {
                    r is None && final(self).spec_body().spec_buffer() == old(
                        self,
                    ).spec_body().spec_buffer() + bytes_of(c)
                },
            },
    {
        match self.body_fut.feed(item) {
            None => None,
            Some(Ok(body)) => Some(bytes_to_string(body, &self.encoding)),
            Some(Err(e)) => Some(Err(Error::Payload(e))),
        }
    }

    /// Runs to completion over a chunk source whose chunks are all at hand, in
    /// order, followed by its end: first the aggregation, then the decoding.
    pub fn drive(self, chunks: &Vec<Bytes>) -> (r: Result<String, Error>)
        ensures
            match drained(self.spec_body(), chunks_of(chunks@)) {
                Ok(b) => match decode_outcome(self.spec_charset(), b) {
                    Ok(s) => r is Ok && r->Ok_0@ == s,
                    Err(e) => r == Err::<String, Error>(e),
                },
                Err(e) => r == Err::<String, Error>(Error::Payload(e)),
            },
    {
        let StringExtractFut { body_fut, encoding } = self;
        match body_fut.drive(chunks) {
            Ok(body) => bytes_to_string(body, &encoding),
            Err(e) => Err(Error::Payload(e)),
        }
    }
}

} // verus!
