//! Abstract syntax tree of "Markdown", and its mathematical model.

use vstd::prelude::*;

verus! {

/// A span-level node of the tree.
#[derive(Debug, PartialEq)]
pub enum Inline {
    Text(String),
    Bold(Vec<Inline>),
    Italic(Vec<Inline>),
    Code(String),
    Link { text: Vec<Inline>, href: String },
}

/// The model of an `Inline`: strings become character sequences, vectors sequences.
pub enum InlineNode {
    Text(Seq<char>),
    Bold(Seq<InlineNode>),
    Italic(Seq<InlineNode>),
    Code(Seq<char>),
    Link { text: Seq<InlineNode>, href: Seq<char> },
}

/// The model of each element of `v`, in order.
pub open spec fn inlines_view(v: Seq<Inline>) -> Seq<InlineNode>
    decreases v, 0int,
{
    Seq::new(v.len(), |i: int| if 0 <= i < v.len() { inline_view(&v[i]) } else { InlineNode::Text(Seq::empty()) })
}

pub open spec fn inline_view(x: &Inline) -> InlineNode
    decreases x, 1int,
{
    match x {
        Inline::Text(s) => InlineNode::Text(s@),
        Inline::Bold(v) => InlineNode::Bold(inlines_view(v@)),
        Inline::Italic(v) => InlineNode::Italic(inlines_view(v@)),
        Inline::Code(s) => InlineNode::Code(s@),
        Inline::Link { text, href } => InlineNode::Link { text: inlines_view(text@), href: href@ },
    }
}

impl View for Inline {
    type V = InlineNode;

    open spec fn view(&self) -> InlineNode {
        inline_view(self)
    }
}

/// A top-level structural node of the tree.
#[derive(Debug, PartialEq)]
pub enum Block {
    Paragraph(Vec<Inline>),
    Heading { level: u8, content: Vec<Inline> },
    Code { language: Option<String>, content: String },
    List(Vec<Block>),
    Quote(Vec<Block>),
}

/// The model of a `Block`.
pub enum BlockNode {
    Paragraph(Seq<InlineNode>),
    Heading { level: nat, content: Seq<InlineNode> },
    Code { language: Option<Seq<char>>, content: Seq<char> },
    List(Seq<BlockNode>),
    Quote(Seq<BlockNode>),
}

/// The model of each element of `v`, in order.
pub open spec fn blocks_view(v: Seq<Block>) -> Seq<BlockNode>
    decreases v, 0int,
{
    Seq::new(v.len(), |i: int| if 0 <= i < v.len() { block_view(&v[i]) } else { BlockNode::List(Seq::empty()) })
}

pub open spec fn block_view(b: &Block) -> BlockNode
    decreases b, 1int,
{
    match b {
        Block::Paragraph(c) => BlockNode::Paragraph(inlines_view(c@)),
        Block::Heading { level, content } => BlockNode::Heading {
            level: *level as nat,
            content: inlines_view(content@),
        },
        Block::Code { language, content } => BlockNode::Code {
            language: match language {
                Some(l) => Some(l@),
                None => None,
            },
            content: content@,
        },
        Block::List(v) => BlockNode::List(blocks_view(v@)),
        Block::Quote(v) => BlockNode::Quote(blocks_view(v@)),
    }
}

impl View for Block {
    type V = BlockNode;

    open spec fn view(&self) -> BlockNode {
        block_view(self)
    }
}

/// A parsed document: its blocks in order.
#[derive(Debug, PartialEq)]
pub struct Document {
    pub blocks: Vec<Block>,
}

impl View for Document {
    type V = Seq<BlockNode>;

    open spec fn view(&self) -> Seq<BlockNode> {
        blocks_view(self.blocks@)
    }
}

} // verus!
