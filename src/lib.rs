//! A small "Markdown" dialect: a two-stage parser (blocks, then inline spans) that
//! builds a document tree, and a renderer from that tree to HTML. Around it, the
//! decisions of a static site tool: its command line, its log levels, and the HTTP
//! layer of the server that publishes the generated pages.

pub mod ast;
pub mod cli;
pub mod error;
pub mod http;
pub mod numbers;
pub mod parse_trait;
pub mod parser;
pub mod slogger;
pub mod text;
pub mod to_html;

use vstd::prelude::*;
use error::MdParseError;
use parser::block::{blocks_spec, lemma_parsed_renderable, lines_of};
use to_html::{ToHtml, document_html};

verus! {

/// Converts a document's text to its HTML page, or reports its first grammar error.
pub fn markdown_to_html(content: &str) -> (r: Result<String, MdParseError>)
    ensures
        match r {
            Ok(html) => blocks_spec(content@) is Ok && html@ == document_html(blocks_spec(content@)->Ok_0),
            Err(e) => blocks_spec(content@) == Err::<Seq<ast::BlockNode>, error::ParseErrorModel>(e@),
        },
{
    match parser::parse(content) {
        Ok(doc) => {
            proof {
                lemma_parsed_renderable(lines_of(content@), 0);
            }
            Ok(doc.to_html())
        },
        Err(e) => Err(e),
    }
}

} // verus!
