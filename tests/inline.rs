use cracked_md::ast::Inline;
use cracked_md::parse_trait::CharCursor;
use cracked_md::parser::inline::{collect_until, parse_inlines};

#[test]
fn collect_until_without_end() {
    let mut s = CharCursor::new("abcdef");
    let res = collect_until(&mut s, '.');
    assert!(res.is_err());
}

#[test]
fn collect_until_stops_after_end() {
    let mut s = CharCursor::new("ab.cd");
    assert_eq!(collect_until(&mut s, '.').unwrap(), "ab");
    assert_eq!(s.take_rest(), "cd");
}

#[test]
fn bold_text() {
    let md = "*abc*";
    let inl = parse_inlines(md).unwrap();

    assert_eq!(
        inl,
        vec![Inline::Bold(vec![Inline::Text("abc".to_string())])]
    );
}

#[test]
fn italic_text() {
    let md = "_abc_";
    let inl = parse_inlines(md).unwrap();

    assert_eq!(
        inl,
        vec![Inline::Italic(vec![Inline::Text("abc".to_string())])]
    );
}

#[test]
fn bold_italic_text() {
    let md = "*_abc_*";
    let inl = parse_inlines(md).unwrap();

    assert_eq!(
        inl,
        vec![Inline::Bold(vec![Inline::Italic(vec![Inline::Text(
            "abc".to_string()
        )])])]
    );
}

#[test]
fn code() {
    let md = "`sudo rm -rf /`";
    let inl = parse_inlines(md).unwrap();

    assert_eq!(inl, vec![Inline::Code("sudo rm -rf /".to_string())]);
}

#[test]
fn text_and_code() {
    let md = "run `sudo rm -rf /` on your computer";
    let inl = parse_inlines(md).unwrap();

    assert_eq!(
        inl,
        vec![
            Inline::Text("run ".to_string()),
            Inline::Code("sudo rm -rf /".to_string()),
            Inline::Text(" on your computer".to_string())
        ]
    );
}

#[test]
fn single_hyperlink() {
    let md = "a link to [my site](https://example.com)";
    let inl = parse_inlines(md).unwrap();

    assert_eq!(
        inl,
        vec![
            Inline::Text("a link to ".to_string()),
            Inline::Link {
                text: vec![Inline::Text("my site".to_string())],
                href: "https://example.com".to_string()
            }
        ]
    );
}

#[test]
fn hyperlink_without_link() {
    let md = "[abc]";
    let inl = parse_inlines(md);

    assert!(inl.is_err());
}

#[test]
fn escape_brackets() {
    let md = r"some \[text\]";
    let inl = parse_inlines(md).unwrap();
    assert_eq!(inl, vec![Inline::Text("some [text]".to_string())]);
}

#[test]
fn escape_escape() {
    let md = r"backslash \\";
    let inl = parse_inlines(md).unwrap();
    assert_eq!(inl, vec![Inline::Text(r"backslash \".to_string())]);
}

#[test]
fn empty_spans() {
    let inl = parse_inlines("**__``").unwrap();
    assert_eq!(
        inl,
        vec![
            Inline::Bold(vec![]),
            Inline::Italic(vec![]),
            Inline::Code(String::new())
        ]
    );
}

#[test]
fn first_delimiter_closes_span() {
    let e = parse_inlines("*_a*_").unwrap_err();
    assert_eq!(
        e.message(),
        "Parse error in '<unknown>' on line 0: expected '_', got ''"
    );
}

#[test]
fn link_text_is_parsed_href_is_verbatim() {
    let inl = parse_inlines("[*go*](a_b*c)").unwrap();
    assert_eq!(
        inl,
        vec![Inline::Link {
            text: vec![Inline::Bold(vec![Inline::Text("go".to_string())])],
            href: "a_b*c".to_string()
        }]
    );
}

#[test]
fn link_without_href_reports_what_followed() {
    let e = parse_inlines("[abc]x").unwrap_err();
    assert_eq!(
        e.message(),
        "Parse error in '<unknown>' on line 0: expected '(<href>)', got 'x'"
    );
    let e = parse_inlines("[abc]").unwrap_err();
    assert_eq!(
        e.message(),
        "Parse error in '<unknown>' on line 0: expected '(<href>)', got ''"
    );
}

#[test]
fn unterminated_spans_fail() {
    assert!(parse_inlines("`code").is_err());
    assert!(parse_inlines("[text").is_err());
    assert!(parse_inlines("[text](href").is_err());
    assert!(parse_inlines("_it").is_err());
}

#[test]
fn dangling_backslash_is_dropped() {
    let inl = parse_inlines(r"end\").unwrap();
    assert_eq!(inl, vec![Inline::Text("end".to_string())]);
}

#[test]
fn escaped_delimiters_stay_in_text() {
    let inl = parse_inlines(r"a \*b\_ c").unwrap();
    assert_eq!(inl, vec![Inline::Text("a *b_ c".to_string())]);
}

#[test]
fn code_span_keeps_backslashes() {
    let inl = parse_inlines(r"`a\b`").unwrap();
    assert_eq!(inl, vec![Inline::Code(r"a\b".to_string())]);
}
