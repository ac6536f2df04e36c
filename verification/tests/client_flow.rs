//! The load state machine: redirect bounding, terminal classification,
//! and the MIME dispatch of successful bodies.

use gemclient::client::dispatch_media;
use gemclient::client::finish;
use gemclient::client::next_step;
use gemclient::client::LoadError;
use gemclient::client::Outcome;
use gemclient::client::RequestState;
use gemclient::client::Step;
use gemclient::client::MAX_REDIRECTS;
use gemclient::gemtext::Line;
use gemclient::response::Response;
use gemclient::response::ResponseError;
use gemclient::status::Status;
use gemclient::urls::Url;

fn start() -> RequestState {
    RequestState::begin(&Url::parse("gemini://example.com/").unwrap())
}

#[test]
fn test_request_line() {
    let state = start();
    assert_eq!(state.request_line(), "gemini://example.com/\r\n");
}

#[test]
fn test_always_redirecting_server_exhausts_hops() {
    let mut state = start();
    let mut follows = 0u32;
    let error = loop {
        match next_step(state, &b"30 /next\n"[..]) {
            Ok(Step::Redirect(next)) => {
                follows += 1;
                assert!(follows <= MAX_REDIRECTS as u32);
                state = next;
            }
            Ok(Step::Terminal(_, _)) => panic!(),
            Err(e) => break e,
        }
    };
    assert_eq!(follows, MAX_REDIRECTS as u32);
    assert_eq!(error, LoadError::TooManyRedirects);
}

#[test]
fn test_redirect_resolves_target() {
    let state = start();
    match next_step(state, &b"31 gemini://example.org/other\n"[..]) {
        Ok(Step::Redirect(next)) => {
            assert_eq!(next.url.as_str(), "gemini://example.org/other");
            assert_eq!(next.hops, 1);
        }
        _ => panic!(),
    }
}

#[test]
fn test_redirect_without_target_fails() {
    assert!(matches!(
        next_step(start(), &b"30\n"[..]),
        Err(LoadError::MissingRedirectTarget)
    ));
}

#[test]
fn test_non_redirect_is_terminal() {
    match next_step(start(), &b"20 text/gemini\nhello\n"[..]) {
        Ok(Step::Terminal(url, response)) => {
            assert_eq!(url.as_str(), "gemini://example.com/");
            assert_eq!(response.status, Status::Success);
            assert_eq!(response.body.as_deref(), Some(&b"hello\n"[..]));
        }
        _ => panic!(),
    }
}

#[test]
fn test_undecodable_response_fails() {
    assert!(matches!(
        next_step(start(), &b"no header"[..]),
        Err(LoadError::Decode(ResponseError::MissingStatusLine))
    ));
}

#[test]
fn test_finish_text_gemini_parses_document() {
    let url = Url::parse("gemini://example.com/").unwrap();
    let response = Response {
        status: Status::Success,
        ctx: Some(String::from("text/gemini")),
        body: Some(b"# title\n".to_vec()),
    };
    match finish(url, response).unwrap() {
        Outcome::Document(url, doc) => {
            assert_eq!(url.as_str(), "gemini://example.com/");
            assert_eq!(doc.lines.len(), 1);
            assert!(matches!(&doc.lines[0], Line::Heading(1, s) if s == "title"));
        }
        _ => panic!(),
    }
}

#[test]
fn test_finish_defaults_to_text_gemini() {
    let url = Url::parse("gemini://example.com/").unwrap();
    let response = Response {
        status: Status::Success,
        ctx: None,
        body: Some(b"plain\n".to_vec()),
    };
    match finish(url, response).unwrap() {
        Outcome::Document(_, doc) => {
            assert!(matches!(&doc.lines[0], Line::Text(s) if s == "plain"));
        }
        _ => panic!(),
    }
}

#[test]
fn test_finish_normalizes_mime_case_and_parameters() {
    let url = Url::parse("gemini://example.com/").unwrap();
    let response = Response {
        status: Status::Success,
        ctx: Some(String::from("TEXT/GEMINI; charset=utf-8")),
        body: Some(b"ok\n".to_vec()),
    };
    assert!(matches!(
        finish(url, response).unwrap(),
        Outcome::Document(_, _)
    ));
}

#[test]
fn test_finish_image_is_binary() {
    let url = Url::parse("gemini://example.com/cat.png").unwrap();
    let bytes = vec![137u8, 80, 78, 71];
    let response = Response {
        status: Status::Success,
        ctx: Some(String::from("image/png")),
        body: Some(bytes.clone()),
    };
    match finish(url, response).unwrap() {
        Outcome::Binary(_, body) => assert_eq!(body, bytes),
        _ => panic!(),
    }
}

#[test]
fn test_finish_refuses_other_mime_types() {
    let url = Url::parse("gemini://example.com/").unwrap();
    let response = Response {
        status: Status::Success,
        ctx: Some(String::from("application/pdf")),
        body: Some(b"%PDF".to_vec()),
    };
    assert_eq!(
        finish(url, response).unwrap_err(),
        LoadError::UnsupportedMimeType
    );
    let url = Url::parse("gemini://example.com/").unwrap();
    let response = Response {
        status: Status::Success,
        ctx: Some(String::from("not a mime type")),
        body: Some(b"x".to_vec()),
    };
    assert_eq!(
        finish(url, response).unwrap_err(),
        LoadError::UnsupportedMimeType
    );
}

#[test]
fn test_finish_refuses_bad_utf8_text() {
    let url = Url::parse("gemini://example.com/").unwrap();
    let response = Response {
        status: Status::Success,
        ctx: Some(String::from("text/gemini")),
        body: Some(vec![0xFF, 0xFE]),
    };
    assert_eq!(
        finish(url, response).unwrap_err(),
        LoadError::InvalidUtf8Body
    );
}

#[test]
fn test_finish_missing_body() {
    let url = Url::parse("gemini://example.com/").unwrap();
    let response = Response {
        status: Status::Success,
        ctx: Some(String::from("text/gemini")),
        body: None,
    };
    assert_eq!(finish(url, response).unwrap_err(), LoadError::MissingBody);
}

#[test]
fn test_finish_input_prompt() {
    let url = Url::parse("gemini://example.com/search").unwrap();
    let response = Response {
        status: Status::InputExpected,
        ctx: Some(String::from("Search term?")),
        body: None,
    };
    match finish(url, response).unwrap() {
        Outcome::InputRequired(request) => {
            assert_eq!(request.url.as_str(), "gemini://example.com/search");
            assert_eq!(request.prompt, "Search term?");
            assert_eq!(request.modal().prompt(), "Search term?");
        }
        _ => panic!(),
    }
}

#[test]
fn test_finish_input_default_prompt() {
    let url = Url::parse("gemini://example.com/").unwrap();
    let response = Response {
        status: Status::SensitiveInput,
        ctx: None,
        body: None,
    };
    match finish(url, response).unwrap() {
        Outcome::InputRequired(request) => {
            assert_eq!(request.prompt, "Input Expected (no information provided)");
        }
        _ => panic!(),
    }
}

#[test]
fn test_finish_failure_statuses() {
    let url = Url::parse("gemini://example.com/gone").unwrap();
    let response = Response {
        status: Status::NotFound,
        ctx: Some(String::from("nothing here")),
        body: None,
    };
    assert_eq!(
        finish(url, response).unwrap_err(),
        LoadError::StatusFailure(Status::NotFound, Some(String::from("nothing here")))
    );
}

#[test]
fn test_dispatch_media_directly() {
    let url = Url::parse("gemini://example.com/").unwrap();
    match dispatch_media(url, "text", "gemini", b"> quoted\n".to_vec()).unwrap() {
        Outcome::Document(_, doc) => {
            assert!(matches!(&doc.lines[0], Line::Quote(s) if s == "quoted"));
        }
        _ => panic!(),
    }
    let url = Url::parse("gemini://example.com/").unwrap();
    assert_eq!(
        dispatch_media(url, "audio", "ogg", Vec::new()).unwrap_err(),
        LoadError::UnsupportedMimeType
    );
}

#[test]
fn test_input_resubmission_appends_query() {
    let url = Url::parse("gemini://example.com/search").unwrap();
    let resubmitted = url.with_query("hello").unwrap();
    assert_eq!(resubmitted.as_str(), "gemini://example.com/search?hello");
}
