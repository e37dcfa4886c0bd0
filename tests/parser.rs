use cracked_md::ast::{Block, Document, Inline};
use cracked_md::parser::block::{parse_blocks, split_lines};
use cracked_md::parser::parse;

#[test]
fn only_paragraph() {
    let md = "testing paragraph";

    let doc = parse(md).unwrap();
    assert_eq!(
        doc,
        Document {
            blocks: vec![Block::Paragraph(vec![Inline::Text(
                "testing paragraph".to_string()
            )])]
        }
    );
}

#[test]
fn different_headers() {
    let md = "# Header 1\n## Header 2";

    let doc = parse(md).unwrap();

    assert_eq!(
        doc,
        Document {
            blocks: vec![
                Block::Heading {
                    level: 1,
                    content: vec![Inline::Text("Header 1".to_string())]
                },
                Block::Heading {
                    level: 2,
                    content: vec![Inline::Text("Header 2".to_string())]
                },
            ]
        }
    );
}

#[test]
fn inline_bold_and_italics() {
    let md = "some *bold* and _italic_ text";

    let doc = parse(md).unwrap();

    assert_eq!(
        doc,
        Document {
            blocks: vec![Block::Paragraph(vec![
                Inline::Text("some ".to_string()),
                Inline::Bold(vec![Inline::Text("bold".to_string())]),
                Inline::Text(" and ".to_string()),
                Inline::Italic(vec![Inline::Text("italic".to_string())]),
                Inline::Text(" text".to_string()),
            ])]
        }
    );
}

#[test]
fn inline_code() {
    let md = "run command `sudo rm -rf /`";

    let doc = parse(md).unwrap();

    assert_eq!(
        doc,
        Document {
            blocks: vec![Block::Paragraph(vec![
                Inline::Text("run command ".to_string()),
                Inline::Code("sudo rm -rf /".to_string()),
            ])]
        }
    );
}

#[test]
fn bold_header() {
    let md = "# Header is *bold*";

    let doc = parse(md).unwrap();

    assert_eq!(
        doc,
        Document {
            blocks: vec![Block::Heading {
                level: 1,
                content: vec![
                    Inline::Text("Header is ".to_string()),
                    Inline::Bold(vec![Inline::Text("bold".to_string())])
                ]
            }]
        }
    );
}

#[test]
fn anonymous_code_block() {
    let md = "```\necho hello\n```";

    let doc = parse(md).unwrap();

    assert_eq!(
        doc,
        Document {
            blocks: vec![Block::Code {
                language: None,
                content: "echo hello\n".to_string()
            }]
        }
    );
}

#[test]
fn rust_code_block() {
    let md = "```rust\nfn main() {\n\tprintln!(\"Hello world!\");\n}\n```";

    let doc = parse(md).unwrap();

    assert_eq!(
        doc,
        Document {
            blocks: vec![Block::Code {
                language: Some("rust".to_string()),
                content: "fn main() {\n\tprintln!(\"Hello world!\");\n}\n".to_string()
            }]
        }
    );
}

#[test]
fn heading_levels_clamp_at_six() {
    for n in 1..=8usize {
        let md = format!("{} text", "#".repeat(n));
        let blocks = parse_blocks(&md).unwrap();
        assert_eq!(
            blocks,
            vec![Block::Heading {
                level: n.min(6) as u8,
                content: vec![Inline::Text("text".to_string())]
            }]
        );
        let without_space = format!("{}text", "#".repeat(n));
        let e = parse_blocks(&without_space).unwrap_err();
        assert_eq!(e.line(), Some(1));
    }
}

#[test]
fn fenced_block_with_language() {
    let blocks = parse_blocks("```rust\nfn main() {}\n```").unwrap();
    assert_eq!(
        blocks,
        vec![Block::Code {
            language: Some("rust".to_string()),
            content: "fn main() {}\n".to_string()
        }]
    );
}

#[test]
fn empty_fenced_block() {
    let blocks = parse_blocks("```\n```").unwrap();
    assert_eq!(
        blocks,
        vec![Block::Code {
            language: None,
            content: String::new()
        }]
    );
}

#[test]
fn unterminated_fence_names_opening_line() {
    let e = parse_blocks("intro\n\n```rust\nlet x = 1;\nlet y = 2;").unwrap_err();
    assert_eq!(e.line(), Some(3));
    assert_eq!(
        e.message(),
        "Parse error in '<unknown>' on line 3: expected 'a terminating '```'', got ''"
    );
}

#[test]
fn malformed_closing_fence_names_its_line() {
    let e = parse_blocks("```\ncode\n```oops\n").unwrap_err();
    assert_eq!(e.line(), Some(3));
    assert_eq!(
        e.message(),
        "Parse error in '<unknown>' on line 3: expected '```', got '```oops'"
    );
}

#[test]
fn blank_lines_are_skipped() {
    let blocks = parse_blocks("first\n\n   \t\nsecond\n").unwrap();
    assert_eq!(
        blocks,
        vec![
            Block::Paragraph(vec![Inline::Text("first".to_string())]),
            Block::Paragraph(vec![Inline::Text("second".to_string())]),
        ]
    );
}

#[test]
fn empty_document_has_no_blocks() {
    assert_eq!(parse("").unwrap(), Document { blocks: vec![] });
}

#[test]
fn inline_error_is_located_on_its_line() {
    let e = parse_blocks("fine\n## broken *bold").unwrap_err();
    assert_eq!(e.line(), Some(2));
    assert_eq!(
        e.message(),
        "Parse error in '<unknown>' on line 2: expected '*', got ''"
    );
}

#[test]
fn missing_heading_space_message() {
    let e = parse_blocks("\n\n#Whoops").unwrap_err();
    assert_eq!(
        e.message(),
        "Parse error in '<unknown>' on line 3: expected '<space> after #', got 'no <space>'"
    );
}

#[test]
fn lines_split_on_line_endings() {
    assert_eq!(split_lines("a\r\nb\n\nc\r"), vec!["a", "b", "", "c\r"]);
    assert_eq!(split_lines("a\n"), vec!["a"]);
    assert_eq!(split_lines(""), Vec::<String>::new());
    assert_eq!(split_lines("\n"), vec![""]);
}
