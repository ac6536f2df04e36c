//! The descriptor a load hands back when the server asks for input.
//!
//! The caller shows the prompt, collects a line of text, appends it to the
//! URL as its query, and loads again.

use vstd::prelude::*;

use crate::urls::Url;

verus! {

/// A server's request for input: where to resubmit and what to ask.
#[derive(Debug, Clone)]
pub struct InputRequest {
    pub url: Url,
    pub prompt: String,
}

impl InputRequest {
    /// A descriptor for `url` with the given prompt.
    pub fn new(url: Url, prompt: String) -> (r: InputRequest)
        ensures
            r.url == url,
            r.prompt == prompt,
    {
        InputRequest { url, prompt }
    }

    /// The dialog state for this request.
    pub fn modal(&self) -> (r: InputModal)
        ensures
            r@ == self.prompt@,
    {
        InputModal { prompt: self.prompt.clone() }
    }
}

/// The state of an input dialog: the prompt it shows.
#[derive(Debug, Clone)]
pub struct InputModal {
    prompt: String,
}

impl View for InputModal {
    type V = Seq<char>;

    closed spec fn view(&self) -> Seq<char> {
        self.prompt@
    }
}

impl InputModal {
    /// The prompt to show.
    pub fn prompt(&self) -> (r: &str)
        ensures
            r@ == self@,
    {
        self.prompt.as_str()
    }
}

} // verus!
