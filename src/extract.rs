//! The binary and text extractors: each checks the policy, then aggregates
//! the body under the policy's ceiling; the text extractor then decodes it.
use crate::body::{
    body_outcome, chunks_of, declared, header_bytes, latched_error, lemma_chunking_invariance,
    lemma_limit_after_new, HttpMessageBody, DEFAULT_LIMIT,
};
use crate::bytes_buf::bytes_of;
use crate::config::{mimetype_verdict, BadRequest, Error, MediaType, PayloadConfig};
use crate::text::{charset_decoded, decode_outcome, Charset, StringExtractFut};
use actix_http::error::ContentTypeError;
use bytes::Bytes;
use vstd::prelude::*;
use vstd::utf8::{encode_utf8, encode_utf8_decode_utf8, encode_utf8_valid_utf8};

verus! {

/// Whether `body` is a fresh aggregator for the size header `h` under the
/// ceiling `limit`.
pub open spec fn fresh_body(body: HttpMessageBody, h: Option<Seq<u8>>, limit: usize) -> bool {
    &&& body.spec_limit() == limit
    &&& body.spec_length() == declared(h)
    &&& body.spec_latched() == latched_error(h, limit)
    &&& body.spec_buffer() == Seq::<u8>::empty()
}

/// What binary-blob extraction gives: the policy's verdict on the media
/// type, then the aggregation of `chunks` under the ceiling `limit`.
pub open spec fn blob_outcome(
    required: Option<Seq<char>>,
    given: Result<Option<MediaType>, ContentTypeError>,
    limit: usize,
    h: Option<Seq<u8>>,
    chunks: Seq<Seq<u8>>,
) -> Result<Seq<u8>, Error> {
    match mimetype_verdict(required, given) {
        Err(e) => Err(e),
        Ok(_) => match body_outcome(limit, h, chunks) {
            Ok(b) => Ok(b),
            Err(e) => Err(Error::Payload(e)),
        },
    }
}

/// What text extraction gives: the policy's verdict on the media type, the
/// charset resolution, the aggregation, and last the decoding.
pub open spec fn text_outcome(
    required: Option<Seq<char>>,
    given: Result<Option<MediaType>, ContentTypeError>,
    charset: Result<Charset, ContentTypeError>,
    limit: usize,
    h: Option<Seq<u8>>,
    chunks: Seq<Seq<u8>>,
) -> Result<Seq<char>, Error> {
    match mimetype_verdict(required, given) {
        Err(e) => Err(e),
        Ok(_) => match charset {
            Err(e) => Err(Error::ContentType(e)),
            Ok(c) => match body_outcome(limit, h, chunks) {
                Ok(b) => decode_outcome(c, b),
                Err(e) => Err(Error::Payload(e)),
            },
        },
    }
}

/// Starts binary-blob extraction: checks the request's media type, as the
/// request parsed it, against the policy, and on success arms an aggregator
/// with the request's size header and the policy's ceiling. The body is not
/// touched on failure.
pub fn bytes_from_request(
    cfg: &PayloadConfig,
    req_mime: Result<Option<MediaType>, ContentTypeError>,
    content_length: Option<&[u8]>,
) -> (r: Result<HttpMessageBody, Error>)
    ensures
        match mimetype_verdict(cfg.spec_mimetype(), req_mime) {
            Err(e) => r == Err::<HttpMessageBody, Error>(e),
            Ok(_) => r is Ok && fresh_body(r->Ok_0, header_bytes(content_length), cfg.spec_limit()),
        },
{
    if let Err(err) = cfg.check_mimetype(req_mime) {
        return Err(err);
    }
    let limit = cfg.max_size();
    let body = HttpMessageBody::new(content_length).limit(limit);
    proof {
        lemma_limit_after_new(header_bytes(content_length), DEFAULT_LIMIT, limit);
    }
    Ok(body)
}

/// Starts text extraction: checks the media type, then takes the charset
/// that the request resolved, then arms an aggregator as the binary
/// extractor does. The body is not touched on failure.
pub fn string_from_request(
    cfg: &PayloadConfig,
    req_mime: Result<Option<MediaType>, ContentTypeError>,
    encoding: Result<Charset, ContentTypeError>,
    content_length: Option<&[u8]>,
) -> (r: Result<StringExtractFut, Error>)
    ensures
        match mimetype_verdict(cfg.spec_mimetype(), req_mime) {
            Err(e) => r == Err::<StringExtractFut, Error>(e),
            Ok(_) => match encoding {
                Err(e) => r == Err::<StringExtractFut, Error>(Error::ContentType(e)),
                Ok(c) => r is Ok && r->Ok_0.spec_charset() == c && fresh_body(
                    r->Ok_0.spec_body(),
                    header_bytes(content_length),
                    cfg.spec_limit(),
                ),
            },
        },
{
    if let Err(err) = cfg.check_mimetype(req_mime) {
        return Err(err);
    }
    let encoding = match encoding {
        Ok(enc) => enc,
        Err(err) => return Err(Error::ContentType(err)),
    };
    let limit = cfg.max_size();
    let body_fut = HttpMessageBody::new(content_length).limit(limit);
    proof {
        lemma_limit_after_new(header_bytes(content_length), DEFAULT_LIMIT, limit);
    }
    Ok(StringExtractFut::new(body_fut, encoding))
}

/// Binary-blob extraction over a body whose chunks are all at hand.
pub fn extract_bytes(
    cfg: &PayloadConfig,
    req_mime: Result<Option<MediaType>, ContentTypeError>,
    content_length: Option<&[u8]>,
    chunks: &Vec<Bytes>,
) -> (r: Result<Bytes, Error>)
    ensures
        match blob_outcome(
            cfg.spec_mimetype(),
            req_mime,
            cfg.spec_limit(),
            header_bytes(content_length),
            chunks_of(chunks@),
        ) {
            Ok(b) => r is Ok && bytes_of(r->Ok_0) == b,
            Err(e) => r == Err::<Bytes, Error>(e),
        },
{
    match bytes_from_request(cfg, req_mime, content_length) {
        Err(e) => Err(e),
        Ok(body) => match body.drive(chunks) {
            Ok(b) => Ok(b),
            Err(e) => Err(Error::Payload(e)),
        },
    }
}

/// Text extraction over a body whose chunks are all at hand.
pub fn extract_string(
    cfg: &PayloadConfig,
    req_mime: Result<Option<MediaType>, ContentTypeError>,
    encoding: Result<Charset, ContentTypeError>,
    content_length: Option<&[u8]>,
    chunks: &Vec<Bytes>,
) -> (r: Result<String, Error>)
    ensures
        match text_outcome(
            cfg.spec_mimetype(),
            req_mime,
            encoding,
            cfg.spec_limit(),
            header_bytes(content_length),
            chunks_of(chunks@),
        ) {
            Ok(s) => r is Ok && r->Ok_0@ == s,
            Err(e) => r == Err::<String, Error>(e),
        },
{
    match string_from_request(cfg, req_mime, encoding, content_length) {
        Err(e) => Err(e),
        Ok(fut) => fut.drive(chunks),
    }
}

/// Binary-blob extraction that the policy lets through yields the body's
/// bytes unchanged, however they were cut into chunks, while they stay within
/// the ceiling and no size header refuses them.
pub proof fn lemma_blob_identity(
    required: Option<Seq<char>>,
    given: Result<Option<MediaType>, ContentTypeError>,
    limit: usize,
    h: Option<Seq<u8>>,
    chunks: Seq<Seq<u8>>,
)
    requires
        mimetype_verdict(required, given) is Ok,
        latched_error(h, limit) is None,
        chunks.flatten().len() <= limit,
    ensures
        blob_outcome(required, given, limit, h, chunks) == Ok::<Seq<u8>, Error>(chunks.flatten()),
{
    lemma_chunking_invariance(limit, chunks);
}

/// Text extraction in a charset other than UTF-8 yields what decoding the
/// body's bytes in that charset yields, and fails to decode exactly where that
/// decoding fails.
pub proof fn lemma_text_other_charset(
    required: Option<Seq<char>>,
    given: Result<Option<MediaType>, ContentTypeError>,
    label: String,
    limit: usize,
    h: Option<Seq<u8>>,
    chunks: Seq<Seq<u8>>,
)
    requires
        mimetype_verdict(required, given) is Ok,
        latched_error(h, limit) is None,
        chunks.flatten().len() <= limit,
    ensures
        text_outcome(required, given, Ok(Charset::Other(label)), limit, h, chunks) == match charset_decoded(
            label@,
            chunks.flatten(),
        ) {
            Some(s) => Ok::<Seq<char>, Error>(s),
            None => Err(Error::BadRequest(BadRequest::CannotDecodeBody)),
        },
{
    lemma_chunking_invariance(limit, chunks);
}

/// Text extraction in UTF-8 of a body that encodes the text `s` yields `s`.
pub proof fn lemma_text_utf8_round_trip(
    required: Option<Seq<char>>,
    given: Result<Option<MediaType>, ContentTypeError>,
    s: Seq<char>,
    limit: usize,
    h: Option<Seq<u8>>,
    chunks: Seq<Seq<u8>>,
)
    requires
        mimetype_verdict(required, given) is Ok,
        latched_error(h, limit) is None,
        chunks.flatten() == encode_utf8(s),
        chunks.flatten().len() <= limit,
    ensures
        text_outcome(required, given, Ok(Charset::Utf8), limit, h, chunks) == Ok::<Seq<char>, Error>(s),
{
    lemma_chunking_invariance(limit, chunks);
    encode_utf8_valid_utf8(s);
    encode_utf8_decode_utf8(s);
}

} // verus!
