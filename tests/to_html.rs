use cracked_md::ast::{Block, Document, Inline};
use cracked_md::error::{Error, MdParseError};
use cracked_md::markdown_to_html;
use cracked_md::parser::parse;
use cracked_md::text::decimal_string;
use cracked_md::to_html::ToHtml;

#[test]
fn to_html_single_header() {
    let ast = Document {
        blocks: vec![Block::Heading {
            level: 1,
            content: vec![Inline::Text("Heading 1".to_string())],
        }],
    };

    let html = ast.to_html();

    assert_eq!(
        html,
        "<!doctype html><html lang=en><head></head><body><h1>Heading 1</h1></body></html>"
    );
}

#[test]
fn inline_bold_header() {
    let ast = Document {
        blocks: vec![Block::Heading {
            level: 1,
            content: vec![
                Inline::Bold(vec![Inline::Text("Bold".to_string())]),
                Inline::Text(" heading 1".to_string()),
            ],
        }],
    };

    let html = ast.to_html();

    assert_eq!(
        html,
        "<!doctype html><html lang=en><head></head><body><h1><b>Bold</b> heading 1</h1></body></html>"
    );
}

#[test]
fn headings_and_paragraph_nested_code() {
    let ast = Document {
        blocks: vec![
            Block::Heading {
                level: 1,
                content: vec![
                    Inline::Bold(vec![Inline::Text("Bold".to_string())]),
                    Inline::Text(" heading 1".to_string()),
                ],
            },
            Block::Heading {
                level: 2,
                content: vec![Inline::Text("Heading 2".to_string())],
            },
            Block::Paragraph(vec![
                Inline::Text("run ".to_string()),
                Inline::Code("sudo rm -rf /".to_string()),
                Inline::Text(" on your computer".to_string()),
            ]),
        ],
    };

    let html = ast.to_html();

    assert_eq!(
        html,
        "<!doctype html><html lang=en><head></head><body><h1><b>Bold</b> heading 1</h1><h2>Heading 2</h2><p>run <code>sudo rm -rf /</code> on your computer</p></body></html>"
    );
}

#[test]
fn single_header() {
    let md = "# Header 1";
    let ast = match parse(md) {
        Ok(a) => a,
        Err(e) => panic!("{}", e.message()),
    };
    let html = ast.to_html();

    assert_eq!(
        html,
        "<!doctype html><html lang=en><head></head><body><h1>Header 1</h1></body></html>"
    );
}

#[test]
fn single_header_wrong_format() {
    let md = "#Whoops";
    let ast = parse(md);

    assert!(ast.is_err());
}

#[test]
fn nested_bold_headers_and_nested_code_paragraph() {
    let md = "# *Bold* header 1\n## Header 2\nrun `sudo rm -rf /` on your computer";
    let ast = match parse(md) {
        Ok(a) => a,
        Err(e) => panic!("{}", e.message()),
    };
    let html = ast.to_html();

    assert_eq!(
        html,
        "<!doctype html><html lang=en><head></head><body><h1><b>Bold</b> header 1</h1><h2>Header 2</h2><p>run <code>sudo rm -rf /</code> on your computer</p></body></html>"
    );
}

#[test]
fn rendering_twice_gives_same_text() {
    let ast = parse("# T\n*a* [b](c)\n```x\ny\n```").unwrap();
    let first = ast.to_html();
    let second = ast.to_html();
    assert_eq!(first, second);
    assert_eq!(
        first,
        "<!doctype html><html lang=en><head></head><body><h1>T</h1><p><b>a</b> <a href=\"c\">b</a></p><pre><code>y\n</code></pre></body></html>"
    );
}

#[test]
fn italic_and_level_six_render() {
    let ast = Document {
        blocks: vec![Block::Heading {
            level: 6,
            content: vec![Inline::Italic(vec![Inline::Text("<x>".to_string())])],
        }],
    };
    assert_eq!(
        ast.to_html(),
        "<!doctype html><html lang=en><head></head><body><h6><i><x></i></h6></body></html>"
    );
}

#[test]
fn markdown_to_html_reports_errors() {
    assert_eq!(
        markdown_to_html("# Header 1").unwrap(),
        "<!doctype html><html lang=en><head></head><body><h1>Header 1</h1></body></html>"
    );
    let e = markdown_to_html("ok\n[abc]").unwrap_err();
    assert_eq!(e.line(), Some(2));
}

#[test]
fn error_message_with_file_and_line() {
    let e = MdParseError::new("x", "y").set_line(12).set_file("notes.md".to_string());
    assert_eq!(
        e.message(),
        "Parse error in 'notes.md' on line 12: expected 'x', got 'y'"
    );
    let e = MdParseError::from_line(7, "a", "");
    assert_eq!(e.line(), Some(7));
    assert_eq!(
        e.message(),
        "Parse error in '<unknown>' on line 7: expected 'a', got ''"
    );
    let wrapped: Error = MdParseError::new("a", "b").into();
    assert_eq!(wrapped, Error::Parse(MdParseError::new("a", "b")));
}

#[test]
fn decimal_strings() {
    assert_eq!(decimal_string(0), "0");
    assert_eq!(decimal_string(9), "9");
    assert_eq!(decimal_string(10), "10");
    assert_eq!(decimal_string(18446744073709551615), "18446744073709551615");
}
