//! The gemtext document parser.
//!
//! A `text/gemini` body is a sequence of lines separated by line feeds. In
//! normal mode each line is typed by its prefix: a link, a heading, a list
//! item, a preformatting fence, a quote, or plain text. A fence switches the
//! parser into preformatted mode, where every following line is collected
//! verbatim until the closing fence emits them as one block.

use vstd::prelude::*;

use crate::text::find_char;
use crate::text::find_space;
use crate::text::spec_is_space;
use crate::text::spec_trim;
use crate::text::spec_trim_start;
use crate::text::trim;
use crate::text::trim_start_bounds;
use crate::urls::url_join_of;
use crate::urls::Url;

verus! {

/// What can go wrong while parsing a gemtext line.
#[derive(Debug, Clone, Copy, PartialEq, Eq, Structural)]
pub enum LineParsingError {
    /// A link line holds no URI after its marker.
    MissingUri,
    /// A link line's URI does not resolve against the document's URL.
    UrlJoin,
}

/// The two modes of the document parser.
#[derive(Debug, Clone, Copy, PartialEq, Eq, Structural)]
pub enum ParserMode {
    Normal,
    PreFormatted,
}

/// One typed line of a gemtext document.
#[derive(Debug, Clone, PartialEq)]
pub enum Line {
    /// Plain text, kept verbatim.
    Text(String),
    /// A link: the resolved URL and an optional friendly name.
    Link(Url, Option<String>),
    /// A heading: its level and its text.
    Heading(usize, String),
    /// A list item.
    List(String),
    /// A quote.
    Quote(String),
    /// A preformatting fence; never part of a parsed document.
    Toggle(String),
    /// The lines collected between two fences, as one block.
    PreFormatted(String),
}

/// The mathematical content of a [`Line`].
pub ghost enum LineView {
    Text(Seq<char>),
    Link(Seq<char>, Option<Seq<char>>),
    Heading(int, Seq<char>),
    List(Seq<char>),
    Quote(Seq<char>),
    Toggle(Seq<char>),
    PreFormatted(Seq<char>),
}

impl View for Line {
    type V = LineView;

    open spec fn view(&self) -> LineView {
        match self {
            Line::Text(s) => LineView::Text(s@),
            Line::Link(u, f) => LineView::Link(
                u@,
                match f {
                    Some(x) => Some(x@),
                    None => None,
                },
            ),
            Line::Heading(level, s) => LineView::Heading(*level as int, s@),
            Line::List(s) => LineView::List(s@),
            Line::Quote(s) => LineView::Quote(s@),
            Line::Toggle(s) => LineView::Toggle(s@),
            Line::PreFormatted(s) => LineView::PreFormatted(s@),
        }
    }
}

/// The first position of `c` in `s`, if any.
pub open spec fn spec_find_in(s: Seq<char>, c: char) -> Option<int>
    decreases s.len(),
{
    if s.len() == 0 {
        None
    } else if s[0] == c {
        Some(0)
    } else {
        match spec_find_in(s.drop_first(), c) {
            Some(i) => Some(i + 1),
            None => None,
        }
    }
}

/// The first whitespace position in `s`, if any.
pub open spec fn spec_find_ws(s: Seq<char>) -> Option<int>
    decreases s.len(),
{
    if s.len() == 0 {
        None
    } else if spec_is_space(s[0]) {
        Some(0)
    } else {
        match spec_find_ws(s.drop_first()) {
            Some(i) => Some(i + 1),
            None => None,
        }
    }
}

/// How many characters of leading `#` the line carries.
pub open spec fn spec_count_hashes(s: Seq<char>) -> int
    decreases s.len(),
{
    if s.len() > 0 && s[0] == '#' {
        1 + spec_count_hashes(s.drop_first())
    } else {
        0
    }
}

/// Whether the line opens with the link marker.
pub open spec fn spec_is_link_line(s: Seq<char>) -> bool {
    s.len() >= 2 && s[0] == '=' && s[1] == '>'
}

/// Whether the line opens with a heading marker.
pub open spec fn spec_is_heading_line(s: Seq<char>) -> bool {
    s.len() >= 1 && s[0] == '#'
}

/// Whether the line opens with a list marker.
pub open spec fn spec_is_list_line(s: Seq<char>) -> bool {
    s.len() >= 1 && s[0] == '*'
}

/// Whether the line opens with a preformatting fence.
pub open spec fn spec_is_toggle_line(s: Seq<char>) -> bool {
    s.len() >= 3 && s[0] == '`' && s[1] == '`' && s[2] == '`'
}

/// Whether the line opens with a quote marker.
pub open spec fn spec_is_quote_line(s: Seq<char>) -> bool {
    s.len() >= 1 && s[0] == '>'
}

/// What a link line parses to: after the marker, the trimmed rest splits at
/// the first whitespace into a URI, which must be present and resolve
/// against the base, and an optional trimmed friendly name.
pub open spec fn spec_parse_link(base: Seq<char>, line: Seq<char>) -> Result<
    LineView,
    LineParsingError,
> {
    let content = spec_trim(line.skip(2));
    match spec_find_ws(content) {
        Some(k) => {
            let uri = content.take(k);
            if uri.len() == 0 {
                Err(LineParsingError::MissingUri)
            } else {
                match url_join_of(base, uri) {
                    Some(u) => Ok(LineView::Link(u, Some(spec_trim(content.skip(k + 1))))),
                    None => Err(LineParsingError::UrlJoin),
                }
            }
        },
        None => {
            if content.len() == 0 {
                Err(LineParsingError::MissingUri)
            } else {
                match url_join_of(base, content) {
                    Some(u) => Ok(LineView::Link(u, None)),
                    None => Err(LineParsingError::UrlJoin),
                }
            }
        },
    }
}

/// What a heading line parses to: its level counts the leading `#`, its
/// text is the rest with leading whitespace dropped.
pub open spec fn spec_parse_heading(line: Seq<char>) -> LineView {
    LineView::Heading(
        spec_count_hashes(line),
        spec_trim_start(line.skip(spec_count_hashes(line))),
    )
}

/// What a list line parses to: everything after the marker, trimmed.
pub open spec fn spec_parse_list(line: Seq<char>) -> LineView {
    LineView::List(spec_trim(line.skip(1)))
}

/// What a fence line parses to: everything after the three backticks.
pub open spec fn spec_parse_toggle(line: Seq<char>) -> LineView {
    LineView::Toggle(line.skip(3))
}

/// What a quote line parses to: everything after the marker, trimmed.
pub open spec fn spec_parse_quote(line: Seq<char>) -> LineView {
    LineView::Quote(spec_trim(line.skip(1)))
}

/// What one line parses to, the markers tried in order: link, heading,
/// list, fence, quote; everything else is plain text, kept verbatim.
pub open spec fn spec_parse_line(base: Seq<char>, line: Seq<char>) -> Result<
    LineView,
    LineParsingError,
> {
    if spec_is_link_line(line) {
        spec_parse_link(base, line)
    } else if spec_is_heading_line(line) {
        Ok(spec_parse_heading(line))
    } else if spec_is_list_line(line) {
        Ok(spec_parse_list(line))
    } else if spec_is_toggle_line(line) {
        Ok(spec_parse_toggle(line))
    } else if spec_is_quote_line(line) {
        Ok(spec_parse_quote(line))
    } else {
        Ok(LineView::Text(line))
    }
}

/// A found occurrence is its `spec_find_in` position.
proof fn lemma_find_in_some(s: Seq<char>, c: char, i: int)
    requires
        0 <= i < s.len(),
        s[i] == c,
        forall|j: int| 0 <= j < i ==> s[j] != c,
    ensures
        spec_find_in(s, c) == Some(i),
    decreases i,
{
    if i > 0 {
        lemma_find_in_some(s.drop_first(), c, i - 1);
    }
}

/// Where no occurrence exists, `spec_find_in` names none.
proof fn lemma_find_in_none(s: Seq<char>, c: char)
    requires
        forall|j: int| 0 <= j < s.len() ==> s[j] != c,
    ensures
        spec_find_in(s, c) is None,
    decreases s.len(),
{
    if s.len() > 0 {
        lemma_find_in_none(s.drop_first(), c);
    }
}

/// A found first whitespace is its `spec_find_ws` position.
proof fn lemma_find_ws_some(s: Seq<char>, i: int)
    requires
        0 <= i < s.len(),
        spec_is_space(s[i]),
        forall|j: int| 0 <= j < i ==> !spec_is_space(s[j]),
    ensures
        spec_find_ws(s) == Some(i),
    decreases i,
{
    if i > 0 {
        lemma_find_ws_some(s.drop_first(), i - 1);
    }
}

/// Where no whitespace exists, `spec_find_ws` names none.
proof fn lemma_find_ws_none(s: Seq<char>)
    requires
        forall|j: int| 0 <= j < s.len() ==> !spec_is_space(s[j]),
    ensures
        spec_find_ws(s) is None,
    decreases s.len(),
{
    if s.len() > 0 {
        lemma_find_ws_none(s.drop_first());
    }
}

/// A counted run of leading `#` is what `spec_count_hashes` names.
proof fn lemma_count_hashes_at(s: Seq<char>, h: int)
    requires
        0 <= h <= s.len(),
        forall|j: int| 0 <= j < h ==> s[j] == '#',
        h < s.len() ==> s[h] != '#',
    ensures
        spec_count_hashes(s) == h,
    decreases h,
{
    if h == 0 {
    } else {
        lemma_count_hashes_at(s.drop_first(), h - 1);
    }
}

impl Line {
    /// Parses one gemtext line against the document's URL, exactly as
    /// [`spec_parse_line`] describes.
    pub fn parse(current_url: &Url, line: &str) -> (r: Result<Line, LineParsingError>)
        ensures
            match spec_parse_line(current_url@, line@) {
                Ok(v) => r is Ok && r->Ok_0@ == v,
                Err(e) => r == Err::<Line, LineParsingError>(e),
            },
    {
        let n = line.unicode_len();
        if n >= 2 && line.get_char(0) == '=' && line.get_char(1) == '>' {
            Line::parse_link(current_url, line)
        } else if n >= 1 && line.get_char(0) == '#' {
            Ok(Line::parse_header(line))
        } else if n >= 1 && line.get_char(0) == '*' {
            Ok(Line::parse_list(line))
        } else if n >= 3 && line.get_char(0) == '`' && line.get_char(1) == '`' && line.get_char(2)
            == '`' {
            Ok(Line::parse_toggle(line))
        } else if n >= 1 && line.get_char(0) == '>' {
            Ok(Line::parse_quote(line))
        } else {
            Ok(Line::Text(String::from_str(line)))
        }
    }

    /// Parses a link line: URI and optional friendly name after the marker.
    fn parse_link(current_url: &Url, line: &str) -> (r: Result<Line, LineParsingError>)
        requires
            spec_is_link_line(line@),
        ensures
            match spec_parse_link(current_url@, line@) {
                Ok(v) => r is Ok && r->Ok_0@ == v,
                Err(e) => r == Err::<Line, LineParsingError>(e),
            },
    {
        let n = line.unicode_len();
        let content = trim(line.substring_char(2, n));
        proof {
            assert(line@.subrange(2, n as int) =~= line@.skip(2));
        }
        let m = content.as_str().unicode_len();
        match find_space(content.as_str(), 0) {
            Some(k) => {
                proof {
                    lemma_find_ws_some(content@, k as int);
                }
                if k == 0 {
                    assert(content@.take(0).len() == 0);
                    return Err(LineParsingError::MissingUri);
                }
                let uri = content.as_str().substring_char(0, k);
                let friendly = trim(content.as_str().substring_char(k + 1, m));
                proof {
                    assert(uri@ =~= content@.take(k as int));
                    assert(content@.subrange(k + 1, m as int) =~= content@.skip(k + 1));
                }
                match current_url.join(uri) {
                    Ok(u) => Ok(Line::Link(u, Some(friendly))),
                    Err(_) => Err(LineParsingError::UrlJoin),
                }
            },
            None => {
                proof {
                    lemma_find_ws_none(content@);
                }
                if m == 0 {
                    return Err(LineParsingError::MissingUri);
                }
                match current_url.join(content.as_str()) {
                    Ok(u) => Ok(Line::Link(u, None)),
                    Err(_) => Err(LineParsingError::UrlJoin),
                }
            },
        }
    }

    /// Parses a heading line: level from the leading `#`, text left-trimmed.
    fn parse_header(line: &str) -> (r: Line)
        ensures
            r@ == spec_parse_heading(line@),
    {
        let n = line.unicode_len();
        let mut h: usize = 0;
        while h < n && line.get_char(h) == '#'
            invariant
                h <= n == line@.len(),
                forall|j: int| 0 <= j < h ==> line@[j] == '#',
            decreases n - h,
        {
            h = h + 1;
        }
        proof {
            lemma_count_hashes_at(line@, h as int);
        }
        let lo = trim_start_bounds(line, h);
        Line::Heading(h, String::from_str(line.substring_char(lo, n)))
    }

    /// Parses a list line: everything after the marker, trimmed.
    fn parse_list(line: &str) -> (r: Line)
        requires
            line@.len() >= 1,
        ensures
            r@ == spec_parse_list(line@),
    {
        let n = line.unicode_len();
        let content = trim(line.substring_char(1, n));
        proof {
            assert(line@.subrange(1, n as int) =~= line@.skip(1));
        }
        Line::List(content)
    }

    /// Parses a fence line: everything after the three backticks.
    fn parse_toggle(line: &str) -> (r: Line)
        requires
            line@.len() >= 3,
        ensures
            r@ == spec_parse_toggle(line@),
    {
        let n = line.unicode_len();
        let rest = String::from_str(line.substring_char(3, n));
        proof {
            assert(line@.subrange(3, n as int) =~= line@.skip(3));
        }
        Line::Toggle(rest)
    }

    /// Parses a quote line: everything after the marker, trimmed.
    fn parse_quote(line: &str) -> (r: Line)
        requires
            line@.len() >= 1,
        ensures
            r@ == spec_parse_quote(line@),
    {
        let n = line.unicode_len();
        let content = trim(line.substring_char(1, n));
        proof {
            assert(line@.subrange(1, n as int) =~= line@.skip(1));
        }
        Line::Quote(content)
    }
}

/// A parsed document: its URL and its typed lines, in input order.
#[derive(Debug, Clone, PartialEq)]
pub struct Document {
    pub lines: Vec<Line>,
    pub url: Url,
}

/// The mathematical content of a [`Document`].
pub ghost struct DocumentView {
    pub lines: Seq<LineView>,
    pub url: Seq<char>,
}

impl View for Document {
    type V = DocumentView;

    open spec fn view(&self) -> DocumentView {
        DocumentView { lines: self.lines@.map_values(|l: Line| l@), url: self.url@ }
    }
}

/// What the lines of a body parse to, from one parser mode and accumulator
/// on: the body is split at line feeds (content after the last line feed is
/// not a line and is dropped); normal mode types each line, where a fence
/// line switches to preformatted mode with a cleared accumulator and is
/// itself dropped; preformatted mode collects each line and its line feed
/// into the accumulator until a fence line emits the collected block. A
/// block still open at the end of the body is dropped.
pub open spec fn spec_parse_lines(
    base: Seq<char>,
    doc: Seq<char>,
    mode: ParserMode,
    acc: Seq<char>,
) -> Result<Seq<LineView>, LineParsingError>
    decreases doc.len(),
    via spec_parse_lines_dec
{
    match spec_find_in(doc, '\n') {
        None => Ok(Seq::empty()),
        Some(nl) => {
            let line = doc.take(nl);
            let rest = doc.skip(nl + 1);
            if mode == ParserMode::Normal {
                match spec_parse_line(base, line) {
                    Err(e) => Err(e),
                    Ok(l) => if l is Toggle {
                        spec_parse_lines(base, rest, ParserMode::PreFormatted, Seq::empty())
                    } else {
                        match spec_parse_lines(base, rest, ParserMode::Normal, acc) {
                            Ok(ls) => Ok(seq![l] + ls),
                            Err(e) => Err(e),
                        }
                    },
                }
            } else {
                if spec_is_toggle_line(line) {
                    match spec_parse_lines(base, rest, ParserMode::Normal, acc) {
                        Ok(ls) => Ok(seq![LineView::PreFormatted(acc)] + ls),
                        Err(e) => Err(e),
                    }
                } else {
                    spec_parse_lines(base, rest, ParserMode::PreFormatted, acc + line + seq!['\n'])
                }
            }
        },
    }
}

/// A found line feed lies inside the body, so each step shortens it.
#[via_fn]
proof fn spec_parse_lines_dec(base: Seq<char>, doc: Seq<char>, mode: ParserMode, acc: Seq<char>) {
    lemma_find_in_bounds(doc, '\n');
}

/// A found position lies inside the sequence.
proof fn lemma_find_in_bounds(s: Seq<char>, c: char)
    ensures
        spec_find_in(s, c) is Some ==> 0 <= spec_find_in(s, c)->0 < s.len(),
    decreases s.len(),
{
    if s.len() > 0 {
        lemma_find_in_bounds(s.drop_first(), c);
    }
}

/// What a whole body parses to: its lines from normal mode on, under the
/// URL it was fetched from.
pub open spec fn spec_parse_document(base: Seq<char>, doc: Seq<char>) -> Result<
    DocumentView,
    LineParsingError,
> {
    match spec_parse_lines(base, doc, ParserMode::Normal, Seq::empty()) {
        Ok(ls) => Ok((DocumentView { lines: ls, url: base })),
        Err(e) => Err(e),
    }
}

impl Document {
    /// Parses a body fetched from `url`, exactly as [`spec_parse_document`]
    /// describes.
    pub fn parse(url: &Url, doc: &str) -> (r: Result<Document, LineParsingError>)
        ensures
            match spec_parse_document(url@, doc@) {
                Ok(v) => r is Ok && r->Ok_0@ == v,
                Err(e) => r == Err::<Document, LineParsingError>(e),
            },
    {
        let n = doc.unicode_len();
        let mut lines: Vec<Line> = Vec::new();
        let mut acc = String::new();
        let mut mode = ParserMode::Normal;
        let mut pos: usize = 0;
        proof {
            assert(doc@.skip(0) =~= doc@);
            assert(lines@.map_values(|l: Line| l@) =~= Seq::<LineView>::empty());
            if let Ok(ls) = spec_parse_lines(url@, doc@, ParserMode::Normal, Seq::empty()) {
                assert(Seq::<LineView>::empty() + ls =~= ls);
            }
        }
        loop
            invariant
                pos <= n == doc@.len(),
                spec_parse_lines(url@, doc@, ParserMode::Normal, Seq::empty()) == (match spec_parse_lines(
                    url@,
                    doc@.skip(pos as int),
                    mode,
                    acc@,
                ) {
                    Ok(ls) => Ok::<Seq<LineView>, LineParsingError>(
                        lines@.map_values(|l: Line| l@) + ls,
                    ),
                    Err(e) => Err::<Seq<LineView>, LineParsingError>(e),
                }),
            decreases n - pos,
        {
            let ghost suffix = doc@.skip(pos as int);
            match find_char(doc, pos, '\n') {
                None => {
                    proof {
                        assert forall|j: int| 0 <= j < suffix.len() implies suffix[j] != '\n' by {
                            assert(suffix[j] == doc@[pos + j]);
                        }
                        lemma_find_in_none(suffix, '\n');
                        if let Ok(ls) = spec_parse_lines(
                            url@,
                            doc@,
                            ParserMode::Normal,
                            Seq::empty(),
                        ) {
                            assert(lines@.map_values(|l: Line| l@) + Seq::<LineView>::empty()
                                =~= lines@.map_values(|l: Line| l@));
                        }
                    }
                    return Ok(Document { lines, url: url.clone() });
                },
                Some(nl) => {
                    proof {
                        assert forall|j: int| 0 <= j < nl - pos implies suffix[j] != '\n' by {
                            assert(suffix[j] == doc@[pos + j]);
                        }
                        assert(suffix[nl - pos] == doc@[nl as int]);
                        lemma_find_in_some(suffix, '\n', nl - pos);
                        assert(suffix.skip(nl - pos + 1) =~= doc@.skip(nl + 1));
                    }
                    let line_str = doc.substring_char(pos, nl);
                    proof {
                        assert(line_str@ =~= suffix.take(nl - pos));
                    }
                    if mode == ParserMode::Normal {
                        match Line::parse(url, line_str) {
                            Err(e) => {
                                return Err(e);
                            },
                            Ok(l) => {
                                if let Line::Toggle(_) = &l {
                                    acc = String::new();
                                    mode = ParserMode::PreFormatted;
                                } else {
                                    proof {
                                        assert(lines@.push(l).map_values(|x: Line| x@)
                                            =~= lines@.map_values(|x: Line| x@).push(l@));
                                        if let Ok(ls) = spec_parse_lines(
                                            url@,
                                            doc@.skip(nl + 1),
                                            ParserMode::Normal,
                                            acc@,
                                        ) {
                                            assert(lines@.map_values(|x: Line| x@) + (seq![l@]
                                                + ls) =~= lines@.map_values(|x: Line| x@).push(l@)
                                                + ls);
                                        }
                                    }
                                    lines.push(l);
                                }
                            },
                        }
                    } else {
                        let ln = line_str.unicode_len();
                        if ln >= 3 && line_str.get_char(0) == '`' && line_str.get_char(1) == '`'
                            && line_str.get_char(2) == '`' {
                            let block = Line::PreFormatted(acc.clone());
                            proof {
                                assert(lines@.push(block).map_values(|x: Line| x@)
                                    =~= lines@.map_values(|x: Line| x@).push(block@));
                                if let Ok(ls) = spec_parse_lines(
                                    url@,
                                    doc@.skip(nl + 1),
                                    ParserMode::Normal,
                                    acc@,
                                ) {
                                    assert(lines@.map_values(|x: Line| x@) + (seq![
                                        LineView::PreFormatted(acc@),
                                    ] + ls) =~= lines@.map_values(|x: Line| x@).push(
                                        LineView::PreFormatted(acc@),
                                    ) + ls);
                                }
                            }
                            lines.push(block);
                            mode = ParserMode::Normal;
                        } else {
                            let ghost acc0 = acc@;
                            acc.append(line_str);
                            acc.append("\n");
                            proof {
                                reveal_strlit("\n");
                                assert("\n"@ =~= seq!['\n']);
                                assert(acc@ =~= acc0 + line_str@ + seq!['\n']);
                            }
                        }
                    }
                    pos = nl + 1;
                },
            }
        }
    }
}

/// Parsing is a function of the base URL and the body alone: two parses of
/// the same body under the same URL yield structurally equal documents.
pub proof fn lemma_parse_deterministic(
    base: Seq<char>,
    doc: Seq<char>,
    d1: DocumentView,
    d2: DocumentView,
)
    requires
        spec_parse_document(base, doc) == Ok::<DocumentView, LineParsingError>(d1),
        spec_parse_document(base, doc) == Ok::<DocumentView, LineParsingError>(d2),
    ensures
        d1 == d2,
{
}

} // verus!
