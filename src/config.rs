//! The size and media-type policy of an extraction, and the errors that a
//! policy check gives.
use crate::body::{BodyError, DEFAULT_LIMIT};
use actix_http::error::ContentTypeError;
use vstd::prelude::*;
use vstd::utf8::is_ascii_chars;

verus! {

#[verifier::external_type_specification]
#[verifier::external_body]
pub struct ExContentTypeError(ContentTypeError);

/// The canonical text that the mime crate gives a media type it parses from
/// `s`, or nothing where `s` is no media type.
pub uninterp spec fn mime_source(s: Seq<char>) -> Option<Seq<char>>;

/// Whether the media type parsed from `required` equals the media type
/// whose text is `given`, as the mime crate compares them.
pub uninterp spec fn mime_matches(required: Seq<char>, given: Seq<char>) -> bool;

/// Relies on `mime::Mime`'s `FromStr` impl, which parses a media type, and its
/// `Display` impl, which writes the parsed type back as text.
#[verifier::external_body]
fn parse_mime(s: &str) -> (r: Option<String>)
    ensures
        match r {
            Some(t) => mime_source(s@) == Some(t@),
            None => mime_source(s@) is None,
        },
{
    match s.parse::<mime::Mime>() {
        Ok(m) => Some(m.to_string()),
        Err(_) => None,
    }
}

/// Relies on `mime::Mime`'s `FromStr` impl and on its `PartialEq<&str>` impl,
/// which compares a parsed media type with the text of another. That
/// comparison slices `given` at byte offsets taken from `required`, so both
/// are ASCII here. A parsed type whose text is `given` matches that text.
#[verifier::external_body]
fn same_mime(required: &str, given: &str) -> (r: bool)
    requires
        is_ascii_chars(required@),
        is_ascii_chars(given@),
    ensures
        r == mime_matches(required@, given@),
        required@ == given@ && mime_source(given@) == Some(given@) ==> r,
{
    match required.parse::<mime::Mime>() {
        Ok(m) => m == given,
        Err(_) => false,
    }
}

/// A media type, held as the canonical text that the mime crate gives it.
/// The text is ASCII, as header values are.
#[derive(Debug)]
pub struct MediaType {
    source: String,
}

impl MediaType {
    #[verifier::type_invariant]
    spec fn inv(&self) -> bool {
        is_ascii_chars(self.source@)
    }

    /// The canonical text of this media type.
    pub closed spec fn text(&self) -> Seq<char> {
        self.source@
    }

    /// Parses a media type such as `application/json`. Text that is not
    /// ASCII is refused, as a header value holding it would be.
    pub fn parse(s: &str) -> (r: Option<MediaType>)
        ensures
            match r {
                Some(m) => is_ascii_chars(s@) && mime_source(s@) == Some(m.text())
                    && is_ascii_chars(m.text()),
                None => !is_ascii_chars(s@) || match mime_source(s@) {
                    Some(t) => !is_ascii_chars(t),
                    None => true,
                },
            },
    {
        if !s.is_ascii() {
            return None;
        }
        match parse_mime(s) {
            Some(t) => {
                if t.as_str().is_ascii() {
                    Some(MediaType { source: t })
                } else {
                    None
                }
            },
            None => None,
        }
    }

    /// The canonical text of this media type.
    pub fn as_str(&self) -> (r: &str)
        ensures
            r@ == self.text(),
    {
        self.source.as_str()
    }
}

impl Clone for MediaType {
    fn clone(&self) -> (r: Self)
        ensures
            r.text() == self.text(),
    {
        proof {
            use_type_invariant(self);
        }
        MediaType { source: self.source.clone() }
    }
}

/// Why a request was refused before its body was read, or after it could not
/// be decoded.
#[derive(Clone, Copy, Debug, PartialEq, Eq, Structural)]
pub enum BadRequest {
    /// The request's media type differs from the required one.
    UnexpectedContentType,
    /// A media type is required and the request declares none.
    ContentTypeExpected,
    /// The body is not valid text in the request's charset.
    CannotDecodeBody,
}

impl BadRequest {
    /// The message that goes with this refusal.
    pub fn message(&self) -> (r: &'static str)
        ensures
            r@ == match *self {
                BadRequest::UnexpectedContentType => "Unexpected Content-Type"@,
                BadRequest::ContentTypeExpected => "Content-Type is expected"@,
                BadRequest::CannotDecodeBody => "Can not decode body"@,
            },
    {
        proof {
            reveal_strlit("Unexpected Content-Type");
            reveal_strlit("Content-Type is expected");
            reveal_strlit("Can not decode body");
        }
        match self {
            BadRequest::UnexpectedContentType => "Unexpected Content-Type",
            BadRequest::ContentTypeExpected => "Content-Type is expected",
            BadRequest::CannotDecodeBody => "Can not decode body",
        }
    }
}

/// Why an extraction failed.
#[derive(Debug)]
pub enum Error {
    /// The request breaks the policy, or its body cannot be decoded.
    BadRequest(BadRequest),
    /// The request's media type or charset metadata could not be parsed.
    ContentType(ContentTypeError),
    /// The body could not be aggregated.
    Payload(BodyError),
}

/// What the media-type check decides: `required` is the policy's media type,
/// if it sets one, and `given` what the request declares.
pub open spec fn mimetype_verdict(
    required: Option<Seq<char>>,
    given: Result<Option<MediaType>, ContentTypeError>,
) -> Result<(), Error> {
    match required {
        None => Ok(()),
        Some(m) => match given {
            Ok(Some(t)) => if mime_matches(m, t.text()) {
                Ok(())
            } else {
                Err(Error::BadRequest(BadRequest::UnexpectedContentType))
            },
            Ok(None) => Err(Error::BadRequest(BadRequest::ContentTypeExpected)),
            Err(e) => Err(Error::ContentType(e)),
        },
    }
}

/// The size ceiling and the required media type of an extraction.
#[derive(Clone, Debug)]
pub struct PayloadConfig {
    limit: usize,
    mimetype: Option<MediaType>,
}

impl PayloadConfig {
    /// The size ceiling, in bytes.
    pub closed spec fn spec_limit(&self) -> usize {
        self.limit
    }

    /// The text of the required media type, if one is set.
    pub closed spec fn spec_mimetype(&self) -> Option<Seq<char>> {
        match self.mimetype {
            Some(m) => Some(m.text()),
            None => None,
        }
    }

    /// A policy with the size ceiling `limit` and no media-type condition.
    pub fn new(limit: usize) -> (r: Self)
        ensures
            r.spec_limit() == limit,
            r.spec_mimetype() is None,
    {
        PayloadConfig { limit, mimetype: None }
    }

    /// Sets the size ceiling, in bytes.
    pub fn limit(self, limit: usize) -> (r: Self)
        ensures
            r.spec_limit() == limit,
            r.spec_mimetype() == self.spec_mimetype(),
    {
        PayloadConfig { limit, mimetype: self.mimetype }
    }

    /// Sets the media type that requests must declare.
    pub fn mimetype(self, mt: MediaType) -> (r: Self)
        ensures
            r.spec_limit() == self.spec_limit(),
            r.spec_mimetype() == Some(mt.text()),
    {
        PayloadConfig { limit: self.limit, mimetype: Some(mt) }
    }

    /// The size ceiling, in bytes.
    pub fn max_size(&self) -> (r: usize)
        ensures
            r == self.spec_limit(),
    {
        self.limit
    }

    /// Checks the request's media type, as the request parsed it, against the
    /// required one. Without a required type every request passes.
    pub fn check_mimetype(&self, req_mime: Result<Option<MediaType>, ContentTypeError>) -> (r:
        Result<(), Error>)
        ensures
            r == mimetype_verdict(self.spec_mimetype(), req_mime),
            self.spec_mimetype() matches Some(m) && req_mime matches Ok(Some(t)) && t.text() == m
                && mime_source(m) == Some(m) ==> r is Ok,
    {
        match &self.mimetype {
            None => Ok(()),
            Some(mt) => match req_mime {
                Ok(Some(req_mt)) => {
                    proof {
                        use_type_invariant(mt);
                        use_type_invariant(&req_mt);
                    }
                    if same_mime(mt.as_str(), req_mt.as_str()) {
                        Ok(())
                    } else {
                        Err(Error::BadRequest(BadRequest::UnexpectedContentType))
                    }
                },
                Ok(None) => Err(Error::BadRequest(BadRequest::ContentTypeExpected)),
                Err(e) => Err(Error::ContentType(e)),
            },
        }
    }

    /// Whether this is the default policy: the default ceiling and no
    /// media-type condition.
    pub open spec fn is_default_policy(&self) -> bool {
        self.spec_limit() == DEFAULT_LIMIT && self.spec_mimetype() is None
    }

    /// Whether this is the default policy.
    pub fn is_default(&self) -> (r: bool)
        ensures
            r == self.is_default_policy(),
    {
        self.limit == DEFAULT_LIMIT && self.mimetype.is_none()
    }

    /// Picks the policy of a request: one stored directly in its state, else
    /// one stored behind shared ownership, else `fallback`, the one shared
    /// default instance.
    pub fn from_req<'a>(
        direct: Option<&'a PayloadConfig>,
        shared: Option<&'a PayloadConfig>,
        fallback: &'a PayloadConfig,
    ) -> (r: &'a PayloadConfig)
        requires
            fallback.is_default_policy(),
        ensures
            direct is None && shared is None ==> r.is_default_policy(),
            r == match direct {
                Some(c) => c,
                None => match shared {
                    Some(c) => c,
                    None => fallback,
                },
            },
    {
        match direct {
            Some(c) => c,
            None => match shared {
                Some(c) => c,
                None => fallback,
            },
        }
    }
}

impl Default for PayloadConfig {
    fn default() -> (r: Self)
        ensures
            r.spec_limit() == DEFAULT_LIMIT,
            r.spec_mimetype() is None,
            r.is_default_policy(),
    {
        PayloadConfig { limit: DEFAULT_LIMIT, mimetype: None }
    }
}

/// With a required media type `m`, a request passes the check exactly when
/// its media type parsed and equals `m`.
pub proof fn lemma_mimetype_check_exact(
    m: Seq<char>,
    given: Result<Option<MediaType>, ContentTypeError>,
)
    ensures
        mimetype_verdict(Some(m), given) is Ok <==> (given matches Ok(Some(t)) && mime_matches(
            m,
            t.text(),
        )),
{
}

} // verus!
