//! Decoding raw responses: the round trip, the quirks, and every error.

use gemclient::response::Response;
use gemclient::response::ResponseError;
use gemclient::status::Status;

#[test]
fn test_round_trip_success_header() {
    let raw = b"20 text/gemini\nhello world";
    let response = Response::try_from(&raw[..]).unwrap();
    assert_eq!(response.status, Status::Success);
    assert_eq!(response.ctx.as_deref(), Some("text/gemini"));
    assert_eq!(response.body.as_deref(), Some(&b"hello world"[..]));
}

#[test]
fn test_empty_body_kept() {
    let raw = b"20 text/gemini\n";
    let response = Response::try_from(&raw[..]).unwrap();
    assert_eq!(response.status, Status::Success);
    assert_eq!(response.ctx.as_deref(), Some("text/gemini"));
    assert_eq!(response.body.as_deref(), Some(&b""[..]));
}

#[test]
fn test_meta_trimmed() {
    let raw = b"31   gemini://example.org/   \nrest";
    let response = Response::try_from(&raw[..]).unwrap();
    assert_eq!(response.status, Status::PermanentRedirect);
    assert_eq!(response.ctx.as_deref(), Some("gemini://example.org/"));
}

#[test]
fn test_no_meta_gives_none() {
    let raw = b"20\nbody";
    let response = Response::try_from(&raw[..]).unwrap();
    assert_eq!(response.status, Status::Success);
    assert_eq!(response.ctx, None);
}

#[test]
fn test_carriage_return_separates_header() {
    let raw = b"20\r\nbody";
    let response = Response::try_from(&raw[..]).unwrap();
    assert_eq!(response.status, Status::Success);
    assert_eq!(response.ctx.as_deref(), Some(""));
    assert_eq!(response.body.as_deref(), Some(&b"body"[..]));
}

#[test]
fn test_status_token_like_an_unsigned_integer() {
    let raw = b"+20 ok\n";
    let response = Response::try_from(&raw[..]).unwrap();
    assert_eq!(response.status, Status::Success);
    let raw = b"020 ok\n";
    let response = Response::try_from(&raw[..]).unwrap();
    assert_eq!(response.status, Status::Success);
}

#[test]
fn test_missing_status_line() {
    let raw = b"20 text/gemini with no line feed";
    assert_eq!(
        Response::try_from(&raw[..]),
        Err(ResponseError::MissingStatusLine)
    );
}

#[test]
fn test_invalid_status_code() {
    assert_eq!(
        Response::try_from(&b"xx meta\nbody"[..]),
        Err(ResponseError::InvalidStatusCode)
    );
    assert_eq!(
        Response::try_from(&b"99 meta\nbody"[..]),
        Err(ResponseError::InvalidStatusCode)
    );
    assert_eq!(
        Response::try_from(&b"2000 meta\nbody"[..]),
        Err(ResponseError::InvalidStatusCode)
    );
    assert_eq!(
        Response::try_from(&b"\nbody"[..]),
        Err(ResponseError::InvalidStatusCode)
    );
}

#[test]
fn test_invalid_meta_encoding() {
    let raw: Vec<u8> = vec![50, 48, 32, 0xFF, 0xFE, 10, 98];
    assert_eq!(
        Response::try_from(raw.as_slice()),
        Err(ResponseError::InvalidMeta)
    );
}

#[test]
fn test_meta_may_hold_unicode() {
    let raw = "20 text/gemini; charset=utf-8 \u{00E9}\nbody".as_bytes();
    let response = Response::try_from(raw).unwrap();
    assert_eq!(
        response.ctx.as_deref(),
        Some("text/gemini; charset=utf-8 \u{00E9}")
    );
}
