//! Resource locators, backed by the `url` crate.
//!
//! A [`Url`] holds the serialization of an absolute URL, the string the
//! `url` crate printed after parsing. Parsing and reference resolution are
//! the work of that crate; their results are named by uninterpreted spec
//! functions, since writing out the full resolution rules here would restate
//! the crate rather than call it.

use vstd::prelude::*;

verus! {

/// Error when a string cannot be taken or resolved as a URL.
#[derive(Debug, Clone, Copy, PartialEq, Eq, Structural)]
pub enum UrlError {
    /// The string does not parse as an absolute URL.
    Parse,
    /// The reference does not resolve against the base URL.
    Join,
}

/// An absolute URL, kept as its serialization.
#[derive(Debug)]
pub struct Url {
    text: String,
}

impl View for Url {
    type V = Seq<char>;

    closed spec fn view(&self) -> Seq<char> {
        self.text@
    }
}

/// The serialization of the absolute URL that `s` parses as, if it parses.
pub uninterp spec fn url_parse_of(s: Seq<char>) -> Option<Seq<char>>;

/// The serialization of `rel` resolved against the absolute URL `base`, if
/// the resolution succeeds.
pub uninterp spec fn url_join_of(base: Seq<char>, rel: Seq<char>) -> Option<Seq<char>>;

/// The serialization of the absolute URL `base` with its query replaced by
/// `query`, if `base` parses.
pub uninterp spec fn url_query_of(base: Seq<char>, query: Seq<char>) -> Option<Seq<char>>;

/// Longest combined URL and query text that [`Url::with_query`] accepts.
///
/// The `url` crate indexes a serialization with 32 bits and asserts the
/// fit when it restores a fragment after rewriting the query. A character
/// is at most four bytes, and query encoding writes at most three bytes
/// per byte, so keeping the combined character count below this bound
/// keeps every rewritten serialization within the crate's index.
pub const WITH_QUERY_LIMIT: usize = 0x10000000;

impl Url {
    /// Parses an absolute URL.
    ///
    /// Relies on `url::Url::parse`: a pure function of the input string,
    /// whose serialization `String::from` hands back.
    #[verifier::external_body]
    pub fn parse(s: &str) -> (r: Result<Url, UrlError>)
        ensures
            match r {
                Ok(u) => url_parse_of(s@) == Some(u@),
                Err(e) => url_parse_of(s@) is None && e == UrlError::Parse,
            },
    {
        match url::Url::parse(s) {
            Ok(u) => Ok(Url { text: String::from(u) }),
            Err(_) => Err(UrlError::Parse),
        }
    }

    /// Resolves a reference against this URL: absolute references stand
    /// alone, root-relative ones replace the path, relative ones are taken
    /// from the base path's last segment.
    ///
    /// Relies on `url::Url::join`: a pure function of the base and the
    /// reference. The stored serialization is re-parsed to reach it, which
    /// succeeds on the output of the crate's own parser.
    #[verifier::external_body]
    pub fn join(&self, rel: &str) -> (r: Result<Url, UrlError>)
        ensures
            match r {
                Ok(u) => url_join_of(self@, rel@) == Some(u@),
                Err(e) => url_join_of(self@, rel@) is None && e == UrlError::Join,
            },
    {
        match url::Url::parse(&self.text) {
            Ok(base) => match base.join(rel) {
                Ok(u) => Ok(Url { text: String::from(u) }),
                Err(_) => Err(UrlError::Join),
            },
            Err(_) => Err(UrlError::Join),
        }
    }

    /// This URL with its query replaced, the way collected input is sent
    /// back to a server that asked for it.
    ///
    /// Relies on `url::Url::set_query`: a pure function of the base and the
    /// query. The stored serialization is re-parsed to reach it, which
    /// succeeds on the output of the crate's own parser. `set_query`
    /// asserts that the rewritten serialization still fits the crate's
    /// 32-bit index when it restores a fragment, so inputs past
    /// [`WITH_QUERY_LIMIT`] are left out.
    #[verifier::external_body]
    pub fn with_query(&self, query: &str) -> (r: Result<Url, UrlError>)
        requires
            self@.len() + query@.len() < WITH_QUERY_LIMIT,
        ensures
            match r {
                Ok(u) => url_query_of(self@, query@) == Some(u@),
                Err(e) => url_query_of(self@, query@) is None && e == UrlError::Parse,
            },
    {
        match url::Url::parse(&self.text) {
            Ok(mut u) => {
                u.set_query(Some(query));
                Ok(Url { text: String::from(u) })
            },
            Err(_) => Err(UrlError::Parse),
        }
    }

    /// The serialization of this URL.
    pub fn as_str(&self) -> (r: &str)
        ensures
            r@ == self@,
    {
        self.text.as_str()
    }
}

impl Clone for Url {
    /// A clone holds the same serialization.
    fn clone(&self) -> (r: Self)
        ensures
            r@ == self@,
    {
        Url { text: self.text.clone() }
    }
}

impl PartialEq for Url {
    fn eq(&self, other: &Self) -> (r: bool) {
        self.text == other.text
    }
}

impl vstd::std_specs::cmp::PartialEqSpecImpl for Url {
    open spec fn obeys_eq_spec() -> bool {
        true
    }

    open spec fn eq_spec(&self, other: &Self) -> bool {
        self@ == other@
    }
}

} // verus!
