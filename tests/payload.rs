use actix_http::error::{ContentTypeError, PayloadError};
use bytes::Bytes;
use payload_extract::body::{BodyError, HttpMessageBody};
use payload_extract::config::{BadRequest, Error, MediaType, PayloadConfig};
use payload_extract::extract::{bytes_from_request, extract_bytes, extract_string, string_from_request};
use payload_extract::text::Charset;

fn json() -> MediaType {
    MediaType::parse("application/json").unwrap()
}

#[test]
fn test_payload_config() {
    let cfg = PayloadConfig::default().mimetype(json());
    assert!(cfg.check_mimetype(Ok(None)).is_err());

    let form = MediaType::parse("application/x-www-form-urlencoded").unwrap();
    assert!(cfg.check_mimetype(Ok(Some(form))).is_err());

    assert!(cfg.check_mimetype(Ok(Some(json()))).is_ok());
}

#[test]
fn test_config_recall_locations() {
    let fallback = PayloadConfig::default();
    let direct = PayloadConfig::default().mimetype(json());
    let shared = PayloadConfig::default().mimetype(json());

    let bytes_app_data = PayloadConfig::from_req(Some(&direct), None, &fallback);
    let bytes_data = PayloadConfig::from_req(None, Some(&shared), &fallback);
    let string_app_data = PayloadConfig::from_req(Some(&direct), None, &fallback);
    let string_data = PayloadConfig::from_req(None, Some(&shared), &fallback);

    for cfg in [bytes_app_data, bytes_data] {
        let r = bytes_from_request(cfg, Ok(None), None);
        assert!(matches!(r, Err(Error::BadRequest(BadRequest::ContentTypeExpected))));
    }
    for cfg in [string_app_data, string_data] {
        let r = string_from_request(cfg, Ok(None), Ok(Charset::Utf8), None);
        assert!(matches!(r, Err(Error::BadRequest(BadRequest::ContentTypeExpected))));
    }
    for cfg in [bytes_app_data, bytes_data] {
        let r = extract_bytes(cfg, Ok(Some(json())), None, &vec![]);
        assert!(r.is_ok());
    }
    for cfg in [string_app_data, string_data] {
        let r = extract_string(cfg, Ok(Some(json())), Ok(Charset::Utf8), None, &vec![]);
        assert!(r.is_ok());
    }
}

#[test]
fn test_bytes() {
    let cfg = PayloadConfig::default();
    let chunks = vec![Bytes::from_static(b"hello=world")];
    let s = extract_bytes(&cfg, Ok(None), Some(b"11"), &chunks).unwrap();
    assert_eq!(s, Bytes::from_static(b"hello=world"));
}

#[test]
fn test_string() {
    let cfg = PayloadConfig::default();
    let chunks = vec![Bytes::from_static(b"hello=world")];
    let s = extract_string(&cfg, Ok(None), Ok(Charset::Utf8), Some(b"11"), &chunks).unwrap();
    assert_eq!(s, "hello=world");
}

#[test]
fn test_message_body() {
    let res = HttpMessageBody::new(Some(b"xxxx")).drive(&vec![]);
    match res.err().unwrap() {
        BodyError::UnknownLength => {}
        _ => unreachable!("error"),
    }

    let res = HttpMessageBody::new(Some(b"1000000")).drive(&vec![]);
    match res.err().unwrap() {
        BodyError::Overflow => {}
        _ => unreachable!("error"),
    }

    let res = HttpMessageBody::new(None).drive(&vec![Bytes::from_static(b"test")]);
    assert_eq!(res.ok().unwrap(), Bytes::from_static(b"test"));

    let res = HttpMessageBody::new(None).limit(5).drive(&vec![Bytes::from_static(b"11111111111111")]);
    match res.err().unwrap() {
        BodyError::Overflow => {}
        _ => unreachable!("error"),
    }
}

#[test]
fn content_type_parse_error_is_passed_on() {
    let cfg = PayloadConfig::default().mimetype(json());
    let r = cfg.check_mimetype(Err(ContentTypeError::ParseError));
    assert!(matches!(r, Err(Error::ContentType(ContentTypeError::ParseError))));
}

#[test]
fn no_required_type_accepts_anything() {
    let cfg = PayloadConfig::new(10);
    assert!(cfg.check_mimetype(Ok(None)).is_ok());
    assert!(cfg.check_mimetype(Err(ContentTypeError::ParseError)).is_ok());
    assert_eq!(cfg.max_size(), 10);
}

#[test]
fn media_type_mismatch_is_unexpected() {
    let cfg = PayloadConfig::new(10).mimetype(json());
    let text = MediaType::parse("text/plain").unwrap();
    let r = cfg.check_mimetype(Ok(Some(text)));
    assert!(matches!(r, Err(Error::BadRequest(BadRequest::UnexpectedContentType))));
}

#[test]
fn media_type_parse_is_canonical() {
    let m = MediaType::parse("Application/JSON").unwrap();
    assert_eq!(m.as_str(), "application/json");
    assert!(PayloadConfig::new(1).mimetype(json()).check_mimetype(Ok(Some(m))).is_ok());
    assert!(MediaType::parse("not a media type").is_none());
}

#[test]
fn bad_request_messages() {
    assert_eq!(BadRequest::UnexpectedContentType.message(), "Unexpected Content-Type");
    assert_eq!(BadRequest::ContentTypeExpected.message(), "Content-Type is expected");
    assert_eq!(BadRequest::CannotDecodeBody.message(), "Can not decode body");
}

#[test]
fn limit_builder_keeps_mimetype() {
    let cfg = PayloadConfig::new(3).mimetype(json()).limit(7);
    assert_eq!(cfg.max_size(), 7);
    assert!(cfg.check_mimetype(Ok(None)).is_err());
}

#[test]
fn charset_error_is_passed_on() {
    let cfg = PayloadConfig::default();
    let r = string_from_request(&cfg, Ok(None), Err(ContentTypeError::UnknownEncoding), None);
    assert!(matches!(r, Err(Error::ContentType(ContentTypeError::UnknownEncoding))));
}

#[test]
fn transport_error_is_passed_on() {
    let mut body = HttpMessageBody::new(None);
    assert!(body.poll_latched().is_none());
    assert!(body.feed(Some(Ok(Bytes::from_static(b"ab")))).is_none());
    let r = body.feed(Some(Err(PayloadError::EncodingCorrupted)));
    assert!(matches!(r, Some(Err(BodyError::Transport(PayloadError::EncodingCorrupted)))));
}

#[test]
fn non_ascii_media_type_is_refused() {
    assert!(MediaType::parse("a/b;c=\"éééé\"").is_none());
    let required = MediaType::parse("aaaaaaaa/b;c=d").unwrap();
    let cfg = PayloadConfig::new(1).mimetype(required);
    let other = MediaType::parse("a/b;c=\"eeee\"").unwrap();
    let r = cfg.check_mimetype(Ok(Some(other)));
    assert!(matches!(r, Err(Error::BadRequest(BadRequest::UnexpectedContentType))));
}

#[test]
fn default_policy_is_recognised() {
    assert!(PayloadConfig::default().is_default());
    assert!(!PayloadConfig::new(5).is_default());
    assert!(!PayloadConfig::default().mimetype(json()).is_default());
    let cloned = PayloadConfig::default().mimetype(json()).clone();
    assert!(cloned.check_mimetype(Ok(Some(json()))).is_ok());
}
