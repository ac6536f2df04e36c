//! Line-level gemtext parsing, one case per marker.

use gemclient::gemtext::Line;
use gemclient::gemtext::LineParsingError;
use gemclient::urls::Url;

#[test]
fn test_parse_quote() {
    let url = Url::parse("gemini://example.com/").unwrap();
    let x = Line::parse(&url, "> hello").unwrap();
    if let Line::Quote(q) = x {
        assert_eq!(q, "hello");
    } else {
        panic!()
    }
}

#[test]
fn test_parse_quote_no_space() {
    let url = Url::parse("gemini://example.com/").unwrap();
    let x = Line::parse(&url, ">hello").unwrap();
    if let Line::Quote(q) = x {
        assert_eq!(q, "hello");
    } else {
        panic!()
    }
}

#[test]
fn test_parse_quote_no_text() {
    let url = Url::parse("gemini://example.com/").unwrap();
    let x = Line::parse(&url, ">").unwrap();
    if let Line::Quote(q) = x {
        assert_eq!(q, "");
    } else {
        panic!()
    }
}

#[test]
fn test_parse_list() {
    let url = Url::parse("gemini://example.com/").unwrap();
    let x = Line::parse(&url, "* hello").unwrap();
    if let Line::List(q) = x {
        assert_eq!(q, "hello");
    } else {
        panic!()
    }
}

#[test]
fn test_parse_list_no_space() {
    let url = Url::parse("gemini://example.com/").unwrap();
    let x = Line::parse(&url, "*hello").unwrap();
    if let Line::List(q) = x {
        assert_eq!(q, "hello");
    } else {
        panic!()
    }
}

#[test]
fn test_parse_list_no_text() {
    let url = Url::parse("gemini://example.com/").unwrap();
    let x = Line::parse(&url, "*").unwrap();
    if let Line::List(q) = x {
        assert_eq!(q, "");
    } else {
        panic!()
    }
}

#[test]
fn test_parse_link() {
    let url = Url::parse("gemini://example.com/").unwrap();
    let target = Url::parse("gemini://example2.com/").unwrap();
    let x = Line::parse(&url, "=> gemini://example2.com/").unwrap();
    if let Line::Link(link_url, friendly) = x {
        assert_eq!(link_url, target);
        assert_eq!(friendly, None);
    } else {
        panic!();
    }
    let x = Line::parse(&url, "=> gemini://example2.com/ hello").unwrap();
    if let Line::Link(link_url, friendly) = x {
        let friendly = friendly.unwrap();
        assert_eq!(link_url, target);
        assert_eq!(friendly, "hello");
    } else {
        panic!();
    }
}

#[test]
fn test_parse_link_relative() {
    let url = Url::parse("gemini://example.com/").unwrap();
    let target = Url::parse("gemini://example.com/relative").unwrap();
    let x = Line::parse(&url, "=> relative").unwrap();
    if let Line::Link(link_url, friendly) = x {
        assert_eq!(link_url, target);
        assert_eq!(friendly, None);
    } else {
        panic!();
    }
    let x = Line::parse(&url, "=> relative friendly").unwrap();
    if let Line::Link(link_url, friendly) = x {
        let friendly = friendly.unwrap();
        assert_eq!(link_url, target);
        assert_eq!(friendly, "friendly");
    } else {
        panic!();
    }
}

#[test]
fn test_parse_link_relative_deep() {
    let url = Url::parse("gemini://example.com/1/2/3").unwrap();
    let target = Url::parse("gemini://example.com/1/2/abc/xyz").unwrap();
    let x = Line::parse(&url, "=> abc/xyz").unwrap();
    if let Line::Link(link_url, friendly) = x {
        assert_eq!(link_url, target);
        assert_eq!(friendly, None);
    } else {
        panic!();
    }
    let x = Line::parse(&url, "=> abc/xyz friendly").unwrap();
    if let Line::Link(link_url, friendly) = x {
        let friendly = friendly.unwrap();
        assert_eq!(link_url, target);
        assert_eq!(friendly, "friendly");
    } else {
        panic!();
    }
}

#[test]
fn test_parse_link_relative_root() {
    let url = Url::parse("gemini://example.com/1/2/3").unwrap();
    let target = Url::parse("gemini://example.com/abc/xyz").unwrap();
    let x = Line::parse(&url, "=> /abc/xyz").unwrap();
    if let Line::Link(link_url, friendly) = x {
        assert_eq!(link_url, target);
        assert_eq!(friendly, None);
    } else {
        panic!();
    }
    let x = Line::parse(&url, "=> /abc/xyz friendly").unwrap();
    if let Line::Link(link_url, friendly) = x {
        let friendly = friendly.unwrap();
        assert_eq!(link_url, target);
        assert_eq!(friendly, "friendly");
    } else {
        panic!();
    }
}

#[test]
fn test_parse_link_friendly_space() {
    let url = Url::parse("gemini://example.com/").unwrap();
    let target = Url::parse("gemini://example.com/abc").unwrap();
    let x = Line::parse(&url, "=> abc long friendly text with spaces").unwrap();
    if let Line::Link(link_url, friendly) = x {
        let friendly = friendly.unwrap();
        assert_eq!(link_url, target);
        assert_eq!(friendly, "long friendly text with spaces");
    } else {
        panic!();
    }
}

#[test]
fn test_parse_header() {
    let url = Url::parse("gemini://example.com/").unwrap();
    let x = Line::parse(&url, "# hello").unwrap();
    if let Line::Heading(level, s) = x {
        assert_eq!(level, 1);
        assert_eq!(s, "hello");
    } else {
        panic!();
    }
    let x = Line::parse(&url, "## hello").unwrap();
    if let Line::Heading(level, s) = x {
        assert_eq!(level, 2);
        assert_eq!(s, "hello");
    } else {
        panic!();
    }
    let x = Line::parse(&url, "### hello").unwrap();
    if let Line::Heading(level, s) = x {
        assert_eq!(level, 3);
        assert_eq!(s, "hello");
    } else {
        panic!();
    }
}

#[test]
fn test_parse_header_no_space() {
    let url = Url::parse("gemini://example.com/").unwrap();
    let x = Line::parse(&url, "#hello").unwrap();
    if let Line::Heading(level, s) = x {
        assert_eq!(level, 1);
        assert_eq!(s, "hello");
    } else {
        panic!();
    }
    let x = Line::parse(&url, "##hello").unwrap();
    if let Line::Heading(level, s) = x {
        assert_eq!(level, 2);
        assert_eq!(s, "hello");
    } else {
        panic!();
    }
    let x = Line::parse(&url, "###hello").unwrap();
    if let Line::Heading(level, s) = x {
        assert_eq!(level, 3);
        assert_eq!(s, "hello");
    } else {
        panic!();
    }
}

#[test]
fn test_parse_text_line() {
    let url = Url::parse("gemini://example.com/").unwrap();
    let x = Line::parse(&url, "just some words").unwrap();
    if let Line::Text(s) = x {
        assert_eq!(s, "just some words");
    } else {
        panic!();
    }
}

#[test]
fn test_parse_link_missing_uri() {
    let url = Url::parse("gemini://example.com/").unwrap();
    assert_eq!(
        Line::parse(&url, "=>"),
        Err(LineParsingError::MissingUri)
    );
    assert_eq!(
        Line::parse(&url, "=>   "),
        Err(LineParsingError::MissingUri)
    );
}
