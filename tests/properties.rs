use bytes::Bytes;
use payload_extract::body::{BodyError, HttpMessageBody, DEFAULT_LIMIT};
use payload_extract::config::{BadRequest, Error, MediaType, PayloadConfig};
use payload_extract::extract::{extract_bytes, extract_string, string_from_request};
use payload_extract::length::parse_declared_length;
use payload_extract::text::{bytes_to_string, Charset};

fn chunks_of(parts: &[&'static [u8]]) -> Vec<Bytes> {
    parts.iter().map(|p| Bytes::from_static(p)).collect()
}

#[test]
fn chunking_does_not_change_the_body() {
    let whole = b"hello=world";
    let one = chunks_of(&[whole]);
    let bytewise: Vec<Bytes> = whole.iter().map(|b| Bytes::copy_from_slice(&[*b])).collect();
    let uneven = chunks_of(&[b"he", b"", b"llo=w", b"orld"]);
    for chunks in [one, bytewise, uneven] {
        let r = HttpMessageBody::new(None).limit(11).drive(&chunks).unwrap();
        assert_eq!(r, Bytes::from_static(whole));
    }
}

#[test]
fn last_chunk_landing_on_the_limit_is_accepted() {
    let r = HttpMessageBody::new(None).limit(4).drive(&chunks_of(&[b"ab", b"cd"]));
    assert_eq!(r.unwrap(), Bytes::from_static(b"abcd"));
}

#[test]
fn overflow_at_the_first_chunk_past_the_limit() {
    let mut body = HttpMessageBody::new(None).limit(4);
    assert!(body.poll_latched().is_none());
    assert!(body.feed(Some(Ok(Bytes::from_static(b"abc")))).is_none());
    let r = body.feed(Some(Ok(Bytes::from_static(b"de"))));
    assert!(matches!(r, Some(Err(BodyError::Overflow))));
}

#[test]
fn overflow_whatever_the_chunking() {
    for chunks in [chunks_of(&[b"abcdef"]), chunks_of(&[b"a", b"b", b"c", b"d", b"e", b"f"])] {
        let r = HttpMessageBody::new(None).limit(5).drive(&chunks);
        assert!(matches!(r, Err(BodyError::Overflow)));
    }
}

#[test]
fn declared_overflow_before_any_chunk() {
    let mut body = HttpMessageBody::new(Some(b"10")).limit(5);
    assert!(matches!(body.poll_latched(), Some(BodyError::Overflow)));
    let r = HttpMessageBody::new(Some(b"10")).limit(5).drive(&chunks_of(&[b"ab"]));
    assert!(matches!(r, Err(BodyError::Overflow)));
}

#[test]
fn raising_the_limit_clears_the_declared_overflow() {
    let r = HttpMessageBody::new(Some(b"300000")).limit(300000).drive(&chunks_of(&[b"ab"]));
    assert_eq!(r.unwrap(), Bytes::from_static(b"ab"));
}

#[test]
fn unparseable_length_is_unknown() {
    for h in [&b"xxxx"[..], b"", b"+", b"-1", b"1 2", b"12a", b"99999999999999999999999"] {
        let r = HttpMessageBody::new(Some(h)).limit(usize::MAX).drive(&chunks_of(&[b"ab"]));
        assert!(matches!(r, Err(BodyError::UnknownLength)));
    }
}

#[test]
fn declared_length_values() {
    assert_eq!(parse_declared_length(b"0"), Some(0));
    assert_eq!(parse_declared_length(b"+42"), Some(42));
    assert_eq!(parse_declared_length(b"007"), Some(7));
    assert_eq!(parse_declared_length(b"262144"), Some(262_144));
    assert_eq!(parse_declared_length(usize::MAX.to_string().as_bytes()), Some(usize::MAX));
    assert_eq!(parse_declared_length(b"18446744073709551616"), None);
    assert_eq!(parse_declared_length(b"++1"), None);
    assert_eq!(parse_declared_length(b""), None);
}

#[test]
fn blob_identity() {
    let cfg = PayloadConfig::default();
    let r = extract_bytes(&cfg, Ok(None), None, &chunks_of(&[b"\x00\xff", b"\x80binary"])).unwrap();
    assert_eq!(r, Bytes::from_static(b"\x00\xff\x80binary"));
}

#[test]
fn text_utf8_round_trip() {
    let s = "héllo wörld ✓";
    let bytes = Bytes::copy_from_slice(s.as_bytes());
    let (a, b) = (bytes.slice(..3), bytes.slice(3..));
    let r = extract_string(&PayloadConfig::default(), Ok(None), Ok(Charset::Utf8), None, &vec![a, b]);
    assert_eq!(r.unwrap(), s);
}

#[test]
fn text_invalid_utf8_cannot_be_decoded() {
    let r = bytes_to_string(Bytes::from_static(b"ab\xffcd"), &Charset::Utf8);
    assert!(matches!(r, Err(Error::BadRequest(BadRequest::CannotDecodeBody))));
}

#[test]
fn text_in_another_charset() {
    let body = Bytes::from_static(b"caf\xe9");
    let charset = Charset::Other("windows-1252".to_string());
    let direct = encoding_rs::WINDOWS_1252
        .decode_without_bom_handling_and_without_replacement(&body)
        .unwrap()
        .into_owned();
    let r = extract_string(&PayloadConfig::default(), Ok(None), Ok(charset.clone()), None, &vec![body]);
    assert_eq!(r.unwrap(), direct);
    assert_eq!(direct, "café");
}

#[test]
fn text_undecodable_in_another_charset() {
    let r = bytes_to_string(Bytes::from_static(b"\x82"), &Charset::Other("Shift_JIS".to_string()));
    assert!(matches!(r, Err(Error::BadRequest(BadRequest::CannotDecodeBody))));
}

#[test]
fn text_decoding_fails_only_after_aggregation() {
    let cfg = PayloadConfig::new(2);
    let r = extract_string(&cfg, Ok(None), Ok(Charset::Utf8), None, &chunks_of(&[b"\xff\xff\xff"]));
    assert!(matches!(r, Err(Error::Payload(BodyError::Overflow))));
}

#[test]
fn small_limit_overflows_blob() {
    let cfg = PayloadConfig::new(5);
    let r = extract_bytes(&cfg, Ok(None), None, &chunks_of(&[b"11111111111111"]));
    assert!(matches!(r, Err(Error::Payload(BodyError::Overflow))));
}

#[test]
fn unknown_length_whatever_the_payload() {
    let cfg = PayloadConfig::default();
    for chunks in [vec![], chunks_of(&[b"hello"])] {
        let r = extract_bytes(&cfg, Ok(None), Some(b"xxxx"), &chunks);
        assert!(matches!(r, Err(Error::Payload(BodyError::UnknownLength))));
    }
}

#[test]
fn default_limit_refuses_large_declared_length() {
    let fallback = PayloadConfig::default();
    let cfg = PayloadConfig::from_req(None, None, &fallback);
    assert_eq!(cfg.max_size(), DEFAULT_LIMIT);
    let r = extract_bytes(cfg, Ok(None), Some(b"1000000"), &chunks_of(&[b"short"]));
    assert!(matches!(r, Err(Error::Payload(BodyError::Overflow))));
}

#[test]
fn default_policy_yields_small_body() {
    let fallback = PayloadConfig::default();
    let cfg = PayloadConfig::from_req(None, None, &fallback);
    let r = extract_bytes(cfg, Ok(None), None, &chunks_of(&[b"test"]));
    assert_eq!(r.unwrap(), Bytes::from_static(b"test"));
}

#[test]
fn required_json_without_content_type() {
    let cfg = PayloadConfig::default().mimetype(MediaType::parse("application/json").unwrap());
    let r = extract_bytes(&cfg, Ok(None), None, &chunks_of(&[b"{}"]));
    assert!(matches!(r, Err(Error::BadRequest(BadRequest::ContentTypeExpected))));
    let r = string_from_request(&cfg, Ok(None), Ok(Charset::Utf8), None);
    assert!(matches!(r, Err(Error::BadRequest(BadRequest::ContentTypeExpected))));
}
