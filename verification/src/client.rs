//! The protocol client: one logical load, as a state machine.
//!
//! A load sends one request per TLS connection and follows redirects with a
//! bounded hop counter. The transport is the caller's: it opens the
//! connection, writes [`RequestState::request_line`], reads until the peer
//! closes, and hands the raw bytes to [`next_step`]. A terminal response
//! goes to [`finish`], which branches on the status class and the MIME
//! type of the body.

use vstd::prelude::*;
use vstd::utf8::decode_utf8;
use vstd::utf8::valid_utf8;

use crate::gemtext::spec_parse_document;
use crate::gemtext::Document;
use crate::gemtext::LineParsingError;
use crate::input::InputRequest;
use crate::response::spec_decode;
use crate::response::Response;
use crate::response::ResponseError;
use crate::status::Status;
use crate::status::StatusClass;
use crate::text::bytes_to_string;
use crate::text::str_eq;
use crate::urls::url_join_of;
use crate::urls::Url;

verus! {

/// The most redirects one load may follow.
pub const MAX_REDIRECTS: u8 = 5;

/// Why a load fails.
#[derive(Debug, Clone, PartialEq)]
pub enum LoadError {
    /// The raw response does not decode.
    Decode(ResponseError),
    /// A redirect response names no target.
    MissingRedirectTarget,
    /// A redirect target does not resolve against the current URL.
    UrlJoin,
    /// The server redirected more than [`MAX_REDIRECTS`] times.
    TooManyRedirects,
    /// A successful response has no body to show.
    MissingBody,
    /// A successful response carries a MIME type the client cannot show.
    UnsupportedMimeType,
    /// A text body is not valid UTF-8.
    InvalidUtf8Body,
    /// A text body does not parse as gemtext.
    Gemtext(LineParsingError),
    /// The server reported a failure: the status and its message.
    StatusFailure(Status, Option<String>),
}

/// What one load hands back to the caller.
#[derive(Debug)]
pub enum Outcome {
    /// A parsed gemtext page.
    Document(Url, Document),
    /// Raw binary content, for the presentation layer to show.
    Binary(Url, Vec<u8>),
    /// The server asks for input before it answers.
    InputRequired(InputRequest),
}

/// One load in progress: the URL currently asked and the redirects already
/// followed.
#[derive(Debug, Clone)]
pub struct RequestState {
    pub url: Url,
    pub hops: u8,
}

/// What the response to the current request means for the load.
#[derive(Debug)]
pub enum Step {
    /// Follow a redirect: the state for the next hop.
    Redirect(RequestState),
    /// The chain ends here, with this response.
    Terminal(Url, Response),
}

impl RequestState {
    /// A fresh load of `url`: no redirects followed yet.
    pub fn begin(url: &Url) -> (r: RequestState)
        ensures
            r.url@ == url@,
            r.hops == 0,
    {
        RequestState { url: url.clone(), hops: 0 }
    }

    /// The request to send for this state: the URL and a carriage return
    /// and line feed.
    pub fn request_line(&self) -> (r: String)
        ensures
            r@ == self.url@ + seq!['\r', '\n'],
    {
        let mut line = String::from_str(self.url.as_str());
        line.append("\r\n");
        proof {
            reveal_strlit("\r\n");
            assert(line@ =~= self.url@ + seq!['\r', '\n']);
        }
        line
    }
}

/// Advances the load by one response. The response is decoded; a redirect
/// must name a target that resolves against the current URL and is
/// followed only below the hop bound; any other class ends the chain.
pub fn next_step(state: RequestState, raw: &[u8]) -> (r: Result<Step, LoadError>)
    ensures
        match spec_decode(raw@) {
            Err(e) => r == Err::<Step, LoadError>(LoadError::Decode(e)),
            Ok(v) => {
                if v.status.spec_class() == StatusClass::Redirect {
                    match v.ctx {
                        None => r == Err::<Step, LoadError>(LoadError::MissingRedirectTarget),
                        Some(target) => {
                            if state.hops >= MAX_REDIRECTS {
                                r == Err::<Step, LoadError>(LoadError::TooManyRedirects)
                            } else {
                                match url_join_of(state.url@, target) {
                                    None => r == Err::<Step, LoadError>(LoadError::UrlJoin),
                                    Some(u2) => r matches Ok(Step::Redirect(s2)) && s2.url@ == u2
                                        && s2.hops == state.hops + 1,
                                }
                            }
                        },
                    }
                } else {
                    r matches Ok(Step::Terminal(u, resp)) && u@ == state.url@ && resp@ == v
                }
            },
        },
{
    let response = match Response::try_from(raw) {
        Err(e) => {
            return Err(LoadError::Decode(e));
        },
        Ok(response) => response,
    };
    if response.status.class() == StatusClass::Redirect {
        let target = match &response.ctx {
            None => {
                return Err(LoadError::MissingRedirectTarget);
            },
            Some(target) => target,
        };
        if state.hops >= MAX_REDIRECTS {
            return Err(LoadError::TooManyRedirects);
        }
        match state.url.join(target.as_str()) {
            Ok(u2) => Ok(Step::Redirect(RequestState { url: u2, hops: state.hops + 1 })),
            Err(_) => Err(LoadError::UrlJoin),
        }
    } else {
        Ok(Step::Terminal(state.url, response))
    }
}

/// A load whose every response redirects runs out of hops: along a chain
/// that starts fresh and whose states follow one another as [`next_step`]'s
/// redirects do, no more than [`MAX_REDIRECTS`] follows happen, so the
/// chain never grows past that bound and the load never loops.
pub proof fn lemma_redirects_terminate(states: Seq<RequestState>)
    requires
        states.len() > 0,
        states[0].hops == 0,
        forall|i: int|
            1 <= i < states.len() ==> (#[trigger] states[i].hops) == states[i - 1].hops + 1
                && states[i - 1].hops < MAX_REDIRECTS,
    ensures
        states.len() <= MAX_REDIRECTS + 1,
{
    if states.len() > MAX_REDIRECTS + 1 {
        lemma_hops_count_position(states, MAX_REDIRECTS as int + 1);
        assert(states[MAX_REDIRECTS as int + 1].hops == states[MAX_REDIRECTS as int].hops + 1);
        assert(false);
    }
}

/// Along a redirect chain the hop counter counts the position.
proof fn lemma_hops_count_position(states: Seq<RequestState>, i: int)
    requires
        0 <= i < states.len(),
        states[0].hops == 0,
        forall|j: int|
            1 <= j < states.len() ==> (#[trigger] states[j].hops) == states[j - 1].hops + 1
                && states[j - 1].hops < MAX_REDIRECTS,
    ensures
        states[i].hops == i,
    decreases i,
{
    if i > 0 {
        lemma_hops_count_position(states, i - 1);
        assert(states[i].hops == states[i - 1].hops + 1);
    }
}

/// The type and subtype a MIME string names, if it is one.
pub uninterp spec fn mime_parts_of(s: Seq<char>) -> Option<(Seq<char>, Seq<char>)>;

/// Splits a MIME string into its type and subtype.
///
/// Relies on `mime::Mime`: its `FromStr` is a pure function of the string,
/// and `type_` and `subtype` hand the two names back.
#[verifier::external_body]
fn parse_mime(s: &str) -> (r: Option<(String, String)>)
    ensures
        match r {
            Some(p) => mime_parts_of(s@) == Some((p.0@, p.1@)),
            None => mime_parts_of(s@) is None,
        },
{
    match s.parse::<mime::Mime>() {
        Ok(m) => Some((String::from(m.type_().as_str()), String::from(m.subtype().as_str()))),
        Err(_) => None,
    }
}

/// What showing a body of the given MIME type and subtype yields: a
/// `text/gemini` body must be UTF-8 and parse as gemtext, an image is
/// handed over raw, and everything else is refused.
pub open spec fn spec_media_outcome(
    url: Seq<char>,
    mtype: Seq<char>,
    msub: Seq<char>,
    body: Seq<u8>,
    r: Result<Outcome, LoadError>,
) -> bool {
    if mtype == "text"@ && msub == "gemini"@ {
        if !valid_utf8(body) {
            r == Err::<Outcome, LoadError>(LoadError::InvalidUtf8Body)
        } else {
            match spec_parse_document(url, decode_utf8(body)) {
                Ok(v) => r matches Ok(Outcome::Document(u, d)) && u@ == url && d@ == v,
                Err(e) => r == Err::<Outcome, LoadError>(LoadError::Gemtext(e)),
            }
        }
    } else if mtype == "image"@ {
        r matches Ok(Outcome::Binary(u, b)) && u@ == url && b@ == body
    } else {
        r == Err::<Outcome, LoadError>(LoadError::UnsupportedMimeType)
    }
}

/// Shows a body under the MIME type and subtype the metadata named,
/// exactly as [`spec_media_outcome`] describes.
pub fn dispatch_media(url: Url, mtype: &str, msub: &str, body: Vec<u8>) -> (r: Result<
    Outcome,
    LoadError,
>)
    ensures
        spec_media_outcome(url@, mtype@, msub@, body@, r),
{
    if str_eq(mtype, "text") && str_eq(msub, "gemini") {
        let text = match bytes_to_string(body) {
            None => {
                return Err(LoadError::InvalidUtf8Body);
            },
            Some(text) => text,
        };
        match Document::parse(&url, text.as_str()) {
            Ok(d) => Ok(Outcome::Document(url, d)),
            Err(e) => Err(LoadError::Gemtext(e)),
        }
    } else if str_eq(mtype, "image") {
        Ok(Outcome::Binary(url, body))
    } else {
        Err(LoadError::UnsupportedMimeType)
    }
}

/// What [`finish`] answers for a terminal response: an input-class status
/// asks the caller for input, with the metadata as the prompt; a success
/// shows the body under the MIME type the metadata names, `text/gemini`
/// when it names none; every other class is the server's failure, carried
/// with its message.
pub open spec fn spec_finish_outcome(
    url: Seq<char>,
    response: crate::response::ResponseView,
    r: Result<Outcome, LoadError>,
) -> bool {
    if response.status.spec_class() == StatusClass::Input {
        r matches Ok(Outcome::InputRequired(q)) && q.url@ == url && q.prompt@ == (match response.ctx {
            Some(p) => p,
            None => "Input Expected (no information provided)"@,
        })
    } else if response.status.spec_class() == StatusClass::Success {
        match response.body {
            None => r == Err::<Outcome, LoadError>(LoadError::MissingBody),
            Some(b) => {
                let named = match response.ctx {
                    Some(c) => c,
                    None => "text/gemini"@,
                };
                match mime_parts_of(named) {
                    None => r == Err::<Outcome, LoadError>(LoadError::UnsupportedMimeType),
                    Some(p) => spec_media_outcome(url, p.0, p.1, b, r),
                }
            },
        }
    } else {
        r matches Err(LoadError::StatusFailure(st, c)) && st == response.status && (match c {
            Some(m) => response.ctx == Some(m@),
            None => response.ctx is None,
        })
    }
}

/// Turns the terminal response of a chain into what the caller gets,
/// exactly as [`spec_finish_outcome`] describes.
pub fn finish(url: Url, response: Response) -> (r: Result<Outcome, LoadError>)
    ensures
        spec_finish_outcome(url@, response@, r),
{
    let Response { status, ctx, body } = response;
    let class = status.class();
    if class == StatusClass::Input {
        let prompt = match ctx {
            Some(p) => p,
            None => String::from_str("Input Expected (no information provided)"),
        };
        return Ok(Outcome::InputRequired(InputRequest::new(url, prompt)));
    }
    if class == StatusClass::Success {
        let body = match body {
            None => {
                return Err(LoadError::MissingBody);
            },
            Some(b) => b,
        };
        let parts = match &ctx {
            Some(c) => parse_mime(c.as_str()),
            None => parse_mime("text/gemini"),
        };
        match parts {
            None => Err(LoadError::UnsupportedMimeType),
            Some(p) => dispatch_media(url, p.0.as_str(), p.1.as_str(), body),
        }
    } else {
        Err(LoadError::StatusFailure(status, ctx))
    }
}

} // verus!
