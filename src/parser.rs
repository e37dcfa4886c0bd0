//! The two-stage parser: blocks, then inline spans.

pub mod block;
pub mod inline;

use vstd::prelude::*;
use crate::ast::Document;
use crate::error::MdParseError;
use block::{blocks_spec, parse_blocks};

verus! {

/// Parses a whole document.
pub fn parse(s: &str) -> (r: Result<Document, MdParseError>)
    ensures
        match r {
            Ok(d) => blocks_spec(s@) == Ok::<_, crate::error::ParseErrorModel>(d@),
            Err(e) => blocks_spec(s@) == Err::<Seq<crate::ast::BlockNode>, _>(e@),
        },
{
    match parse_blocks(s) {
        Ok(blocks) => Ok(Document { blocks }),
        Err(e) => Err(e),
    }
}

} // verus!
