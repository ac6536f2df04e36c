//! Decoding of raw Gemini responses.
//!
//! A response is one header line, terminated by a line feed, followed by the
//! body bytes. The header holds a numeric status code and, after the first
//! whitespace, free-form metadata whose meaning depends on the status class.

use vstd::prelude::*;
use vstd::slice::slice_to_vec;
use vstd::utf8::decode_utf8;
use vstd::utf8::valid_utf8;

use crate::status::spec_status_of;
use crate::status::Status;
use crate::text::bytes_to_string;
use crate::text::spec_trim;
use crate::text::trim;

verus! {

/// Line feed, the header terminator.
pub const LINE_FEED: u8 = 10;

/// What can go wrong while decoding a raw response.
#[derive(Debug, Clone, Copy, PartialEq, Eq, Structural)]
pub enum ResponseError {
    /// No line feed terminates the header.
    MissingStatusLine,
    /// The status token is not a number from 10 to 69.
    InvalidStatusCode,
    /// The metadata after the status token is not valid UTF-8.
    InvalidMeta,
}

/// A decoded response: its status, the metadata of the header line, and the
/// raw body bytes.
#[derive(Debug, Clone, PartialEq)]
pub struct Response {
    pub status: Status,
    pub ctx: Option<String>,
    pub body: Option<Vec<u8>>,
}

/// The mathematical content of a [`Response`].
pub ghost struct ResponseView {
    pub status: Status,
    pub ctx: Option<Seq<char>>,
    pub body: Option<Seq<u8>>,
}

impl View for Response {
    type V = ResponseView;

    open spec fn view(&self) -> ResponseView {
        ResponseView {
            status: self.status,
            ctx: match self.ctx {
                Some(s) => Some(s@),
                None => None,
            },
            body: match self.body {
                Some(b) => Some(b@),
                None => None,
            },
        }
    }
}

/// The first position of `t` in `s`, if any.
pub open spec fn spec_find_byte(s: Seq<u8>, t: u8) -> Option<int>
    decreases s.len(),
{
    if s.len() == 0 {
        None
    } else if s[0] == t {
        Some(0)
    } else {
        match spec_find_byte(s.drop_first(), t) {
            Some(i) => Some(i + 1),
            None => None,
        }
    }
}

/// Whether `b` is whitespace that may separate the status token from the
/// metadata inside a header line: space, horizontal tab or carriage return.
pub open spec fn spec_is_sep(b: u8) -> bool {
    b == 32 || b == 9 || b == 13
}

/// The first whitespace position in `s`, if any.
pub open spec fn spec_find_sep(s: Seq<u8>) -> Option<int>
    decreases s.len(),
{
    if s.len() == 0 {
        None
    } else if spec_is_sep(s[0]) {
        Some(0)
    } else {
        match spec_find_sep(s.drop_first()) {
            Some(i) => Some(i + 1),
            None => None,
        }
    }
}

/// Whether every byte of `s` is an ASCII digit.
pub open spec fn spec_all_digits(s: Seq<u8>) -> bool {
    forall|i: int| 0 <= i < s.len() ==> 48 <= #[trigger] s[i] <= 57
}

/// The number the digit string `s` writes out.
pub open spec fn spec_digits_val(s: Seq<u8>) -> int
    decreases s.len(),
{
    if s.len() == 0 {
        0
    } else {
        spec_digits_val(s.drop_last()) * 10 + (s.last() - 48)
    }
}

/// The digits of an unsigned-integer token: everything after the optional
/// plus sign.
pub open spec fn spec_u8_digits(s: Seq<u8>) -> Seq<u8> {
    if s.len() > 0 && s[0] == 43 {
        s.drop_first()
    } else {
        s
    }
}

/// The number an unsigned-integer token stands for: an optional plus sign,
/// then at least one digit, with a value that fits in a byte.
pub open spec fn spec_parse_u8(s: Seq<u8>) -> Option<u8> {
    let t = spec_u8_digits(s);
    if t.len() > 0 && spec_all_digits(t) && spec_digits_val(t) <= 255 {
        Some(spec_digits_val(t) as u8)
    } else {
        None
    }
}

/// What decoding raw bytes yields: the header is everything before the first
/// line feed (absent: the response is refused), the status token everything
/// before the header's first whitespace, and the metadata the rest of the
/// header, decoded as UTF-8 and trimmed. The body is whatever follows the
/// line feed, byte for byte.
pub open spec fn spec_decode(s: Seq<u8>) -> Result<ResponseView, ResponseError> {
    match spec_find_byte(s, LINE_FEED) {
        None => Err(ResponseError::MissingStatusLine),
        Some(nl) => {
            let header = s.take(nl);
            let body = s.skip(nl + 1);
            let token = match spec_find_sep(header) {
                Some(sp) => header.take(sp),
                None => header,
            };
            match spec_parse_u8(token) {
                None => Err(ResponseError::InvalidStatusCode),
                Some(code) => match spec_status_of(code) {
                    Err(_) => Err(ResponseError::InvalidStatusCode),
                    Ok(status) => match spec_find_sep(header) {
                        None => Ok(
                            ResponseView { status, ctx: None, body: Some(body) },
                        ),
                        Some(sp) => {
                            let meta = header.skip(sp + 1);
                            if valid_utf8(meta) {
                                Ok(
                                    ResponseView {
                                        status,
                                        ctx: Some(spec_trim(decode_utf8(meta))),
                                        body: Some(body),
                                    },
                                )
                            } else {
                                Err(ResponseError::InvalidMeta)
                            }
                        },
                    },
                },
            }
        },
    }
}

/// A found first occurrence is what `spec_find_byte` names.
proof fn lemma_find_byte_some(s: Seq<u8>, t: u8, i: int)
    requires
        0 <= i < s.len(),
        s[i] == t,
        forall|j: int| 0 <= j < i ==> s[j] != t,
    ensures
        spec_find_byte(s, t) == Some(i),
    decreases i,
{
    if i > 0 {
        lemma_find_byte_some(s.drop_first(), t, i - 1);
    }
}

/// Where no occurrence exists, `spec_find_byte` names none.
proof fn lemma_find_byte_none(s: Seq<u8>, t: u8)
    requires
        forall|j: int| 0 <= j < s.len() ==> s[j] != t,
    ensures
        spec_find_byte(s, t) is None,
    decreases s.len(),
{
    if s.len() > 0 {
        lemma_find_byte_none(s.drop_first(), t);
    }
}

/// A found first whitespace is what `spec_find_sep` names.
proof fn lemma_find_sep_some(s: Seq<u8>, i: int)
    requires
        0 <= i < s.len(),
        spec_is_sep(s[i]),
        forall|j: int| 0 <= j < i ==> !spec_is_sep(s[j]),
    ensures
        spec_find_sep(s) == Some(i),
    decreases i,
{
    if i > 0 {
        lemma_find_sep_some(s.drop_first(), i - 1);
    }
}

/// Where no whitespace exists, `spec_find_sep` names none.
proof fn lemma_find_sep_none(s: Seq<u8>)
    requires
        forall|j: int| 0 <= j < s.len() ==> !spec_is_sep(s[j]),
    ensures
        spec_find_sep(s) is None,
    decreases s.len(),
{
    if s.len() > 0 {
        lemma_find_sep_none(s.drop_first());
    }
}

/// The value of a digit string only grows as digits are appended.
proof fn lemma_digits_val_grows(s: Seq<u8>, i: int)
    requires
        spec_all_digits(s),
        0 <= i <= s.len(),
        spec_digits_val(s.take(i)) > 255,
    ensures
        spec_digits_val(s) > 255,
    decreases s.len() - i,
{
    lemma_digits_val_nonneg(s.take(i));
    if i == s.len() {
        assert(s.take(i) =~= s);
    } else {
        assert(s.take(i + 1).drop_last() =~= s.take(i));
        assert(spec_digits_val(s.take(i + 1)) == spec_digits_val(s.take(i)) * 10 + (s[i] - 48));
        lemma_digits_val_grows(s, i + 1);
    }
}

/// A digit string never writes a negative number.
proof fn lemma_digits_val_nonneg(s: Seq<u8>)
    requires
        spec_all_digits(s),
    ensures
        spec_digits_val(s) >= 0,
    decreases s.len(),
{
    if s.len() > 0 {
        assert(spec_all_digits(s.drop_last()));
        lemma_digits_val_nonneg(s.drop_last());
    }
}

/// The first position of `t` in `s`, if any.
fn find_byte(s: &[u8], t: u8) -> (r: Option<usize>)
    ensures
        match r {
            Some(i) => i < s@.len() && s@[i as int] == t && spec_find_byte(s@, t) == Some(i as int),
            None => spec_find_byte(s@, t) is None,
        },
{
    let n = s.len();
    let mut i: usize = 0;
    while i < n
        invariant
            i <= n == s@.len(),
            forall|j: int| 0 <= j < i ==> s@[j] != t,
        decreases n - i,
    {
        if s[i] == t {
            proof {
                lemma_find_byte_some(s@, t, i as int);
            }
            return Some(i);
        }
        i = i + 1;
    }
    proof {
        lemma_find_byte_none(s@, t);
    }
    None
}

/// Whether `b` may separate the status token from the metadata.
fn is_sep(b: u8) -> (r: bool)
    ensures
        r == spec_is_sep(b),
{
    b == 32 || b == 9 || b == 13
}

/// The first whitespace position in `s`, if any.
fn find_sep(s: &[u8]) -> (r: Option<usize>)
    ensures
        match r {
            Some(i) => i < s@.len() && spec_is_sep(s@[i as int]) && spec_find_sep(s@) == Some(
                i as int,
            ),
            None => spec_find_sep(s@) is None,
        },
{
    let n = s.len();
    let mut i: usize = 0;
    while i < n
        invariant
            i <= n == s@.len(),
            forall|j: int| 0 <= j < i ==> !spec_is_sep(s@[j]),
        decreases n - i,
    {
        if is_sep(s[i]) {
            proof {
                lemma_find_sep_some(s@, i as int);
            }
            return Some(i);
        }
        i = i + 1;
    }
    proof {
        lemma_find_sep_none(s@);
    }
    None
}

/// The number the token `s` stands for, if it is one: an optional plus sign,
/// then at least one digit, with a value that fits in a byte.
fn parse_u8(s: &[u8]) -> (r: Option<u8>)
    ensures
        r == spec_parse_u8(s@),
{
    let n = s.len();
    let start: usize = if n > 0 && s[0] == 43 {
        1
    } else {
        0
    };
    let ghost t = spec_u8_digits(s@);
    assert(t =~= s@.subrange(start as int, n as int));
    if start == n {
        return None;
    }
    let mut val: u16 = 0;
    let mut i: usize = start;
    while i < n
        invariant
            start <= i <= n == s@.len(),
            t == spec_u8_digits(s@),
            t == s@.subrange(start as int, n as int),
            forall|j: int| 0 <= j < i - start ==> 48 <= #[trigger] t[j] <= 57,
            val <= 255,
            val == spec_digits_val(t.take(i - start)),
        decreases n - i,
    {
        let b = s[i];
        if b < 48 || b > 57 {
            assert(t[i - start] == s@[i as int]);
            assert(!spec_all_digits(t));
            return None;
        }
        assert(t.take(i + 1 - start).drop_last() =~= t.take(i - start));
        val = val * 10 + (b - 48) as u16;
        i = i + 1;
        if val > 255 {
            proof {
                if spec_all_digits(t) {
                    lemma_digits_val_grows(t, i - start);
                }
            }
            return None;
        }
    }
    assert(t.take(n - start) =~= t);
    Some(val as u8)
}

impl Response {
    /// Decodes raw response bytes, exactly as [`spec_decode`] describes.
    pub fn try_from(s: &[u8]) -> (r: Result<Response, ResponseError>)
        ensures
            match spec_decode(s@) {
                Ok(v) => r is Ok && r->Ok_0@ == v,
                Err(e) => r == Err::<Response, ResponseError>(e),
            },
    {
        let n = s.len();
        let nl = match find_byte(s, LINE_FEED) {
            None => {
                return Err(ResponseError::MissingStatusLine);
            },
            Some(nl) => nl,
        };
        let header: &[u8] = &s[0..nl];
        assert(header@ =~= s@.take(nl as int));
        let body: &[u8] = &s[nl + 1..n];
        assert(body@ =~= s@.skip(nl + 1));
        let sep = find_sep(header);
        let token: &[u8] = match sep {
            Some(sp) => &header[0..sp],
            None => header,
        };
        proof {
            if let Some(sp) = spec_find_sep(header@) {
                assert(token@ =~= header@.take(sp));
            }
        }
        let code = match parse_u8(token) {
            None => {
                return Err(ResponseError::InvalidStatusCode);
            },
            Some(code) => code,
        };
        let status = match Status::try_from(code) {
            Err(_) => {
                return Err(ResponseError::InvalidStatusCode);
            },
            Ok(status) => status,
        };
        let ctx = match sep {
            None => None,
            Some(sp) => {
                let meta: &[u8] = &header[sp + 1..header.len()];
                assert(meta@ =~= header@.skip(sp + 1));
                match bytes_to_string(slice_to_vec(meta)) {
                    None => {
                        return Err(ResponseError::InvalidMeta);
                    },
                    Some(text) => Some(trim(text.as_str())),
                }
            },
        };
        Ok(Response { status, ctx, body: Some(slice_to_vec(body)) })
    }
}

} // verus!
