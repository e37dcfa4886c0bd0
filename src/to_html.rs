//! Rendering of the tree to HTML.

use vstd::prelude::*;
use crate::ast::{Block, BlockNode, Document, Inline, InlineNode, blocks_view, inlines_view};
use crate::text::{decimal, decimal_string};

verus! {

/// Things that render to HTML text.
pub trait ToHtml {
    /// Whether the value can be rendered.
    spec fn renderable(&self) -> bool;

    /// The HTML text of the value.
    spec fn html(&self) -> Seq<char>;

    fn to_html(&self) -> (r: String)
        requires
            self.renderable(),
        ensures
            r@ == self.html(),
    ;
}

/// The HTML of a span.
pub open spec fn inline_html(n: InlineNode) -> Seq<char>
    decreases n, 1int,
{
    match n {
        InlineNode::Text(s) => s,
        InlineNode::Bold(c) => "<b>"@ + inlines_html(c) + "</b>"@,
        InlineNode::Italic(c) => "<i>"@ + inlines_html(c) + "</i>"@,
        InlineNode::Code(s) => "<code>"@ + s + "</code>"@,
        InlineNode::Link { text, href } => "<a href=\""@ + href + "\">"@ + inlines_html(text) + "</a>"@,
    }
}

/// The HTML of a sequence of spans: theirs, one after another.
pub open spec fn inlines_html(s: Seq<InlineNode>) -> Seq<char>
    decreases s, 0int,
{
    if s.len() == 0 {
        Seq::empty()
    } else {
        inlines_html(s.drop_last()) + inline_html(s.last())
    }
}

/// Whether a block has a rendering: lists and quotes have none.
pub open spec fn block_renderable(b: BlockNode) -> bool {
    !(b is List) && !(b is Quote)
}

/// The HTML of a block.
pub open spec fn block_html(b: BlockNode) -> Seq<char> {
    match b {
        BlockNode::Paragraph(c) => "<p>"@ + inlines_html(c) + "</p>"@,
        BlockNode::Heading { level, content } => "<h"@ + decimal(level) + ">"@ + inlines_html(content)
            + "</h"@ + decimal(level) + ">"@,
        BlockNode::Code { language: _, content } => "<pre><code>"@ + content + "</code></pre>"@,
        _ => Seq::empty(),
    }
}

/// The HTML of a sequence of blocks: theirs, one after another.
pub open spec fn blocks_html(s: Seq<BlockNode>) -> Seq<char>
    decreases s.len(),
{
    if s.len() == 0 {
        Seq::empty()
    } else {
        blocks_html(s.drop_last()) + block_html(s.last())
    }
}

/// The HTML page of a document.
pub open spec fn document_html(blocks: Seq<BlockNode>) -> Seq<char> {
    "<!doctype html><html lang=en><head></head><body>"@ + blocks_html(blocks) + "</body></html>"@
}

fn render_inline(x: &Inline) -> (r: String)
    ensures
        r@ == inline_html(x@),
    decreases x, 1int,
{
    match x {
        Inline::Text(s) => s.clone(),
        Inline::Bold(c) => {
            let mut r = "<b>".to_string();
            r.append(render_inlines(c).as_str());
            r.append("</b>");
            r
        },
        Inline::Italic(c) => {
            let mut r = "<i>".to_string();
            r.append(render_inlines(c).as_str());
            r.append("</i>");
            r
        },
        Inline::Code(s) => {
            let mut r = "<code>".to_string();
            r.append(s.as_str());
            r.append("</code>");
            r
        },
        Inline::Link { text, href } => {
            let mut r = "<a href=\"".to_string();
            r.append(href.as_str());
            r.append("\">");
            r.append(render_inlines(text).as_str());
            r.append("</a>");
            r
        },
    }
}

fn render_inlines(v: &Vec<Inline>) -> (r: String)
    ensures
        r@ == inlines_html(inlines_view(v@)),
    decreases v, 0int,
{
    let mut r = String::new();
    let mut i: usize = 0;
    while i < v.len()
        invariant
            i <= v.len(),
            r@ == inlines_html(inlines_view(v@.take(i as int))),
        decreases v.len() - i,
    {
        let piece = render_inline(&v[i]);
        r.append(piece.as_str());
        proof {
            let t = inlines_view(v@.take(i + 1));
            assert(t.drop_last() =~= inlines_view(v@.take(i as int)));
        }
        i = i + 1;
    }
    assert(v@.take(i as int) =~= v@);
    r
}

impl ToHtml for Inline {
    open spec fn renderable(&self) -> bool {
        true
    }

    open spec fn html(&self) -> Seq<char> {
        inline_html(self@)
    }

    fn to_html(&self) -> (r: String) {
        render_inline(self)
    }
}

impl ToHtml for Block {
    open spec fn renderable(&self) -> bool {
        block_renderable(self@)
    }

    open spec fn html(&self) -> Seq<char> {
        block_html(self@)
    }

    fn to_html(&self) -> (r: String) {
        match self {
            Block::Paragraph(content) => {
                let mut r = "<p>".to_string();
                r.append(render_inlines(content).as_str());
                r.append("</p>");
                r
            },
            Block::Heading { level, content } => {
                let n = decimal_string(*level as usize);
                let mut r = "<h".to_string();
                r.append(n.as_str());
                r.append(">");
                r.append(render_inlines(content).as_str());
                r.append("</h");
                r.append(n.as_str());
                r.append(">");
                r
            },
            Block::Code { language: _, content } => {
                let mut r = "<pre><code>".to_string();
                r.append(content.as_str());
                r.append("</code></pre>");
                r
            },
            Block::List(_) | Block::Quote(_) => {
                proof {
                    assert(false);
                }
                String::new()
            },
        }
    }
}

/// The HTML of each element of `s`, one after another.
pub open spec fn seq_html<T: ToHtml>(s: Seq<T>) -> Seq<char>
    decreases s.len(),
{
    if s.len() == 0 {
        Seq::empty()
    } else {
        seq_html(s.drop_last()) + s.last().html()
    }
}

impl<T: ToHtml> ToHtml for Vec<T> {
    open spec fn renderable(&self) -> bool {
        forall|i: int| 0 <= i < self@.len() ==> (#[trigger] self@[i]).renderable()
    }

    open spec fn html(&self) -> Seq<char> {
        seq_html(self@)
    }

    fn to_html(&self) -> (r: String) {
        let mut r = String::new();
        let mut i: usize = 0;
        while i < self.len()
            invariant
                i <= self@.len(),
                forall|k: int| 0 <= k < self@.len() ==> (#[trigger] self@[k]).renderable(),
                r@ == seq_html(self@.take(i as int)),
            decreases self@.len() - i,
        {
            let piece = self[i].to_html();
            r.append(piece.as_str());
            proof {
                assert(self@.take(i + 1).drop_last() =~= self@.take(i as int));
            }
            i = i + 1;
        }
        assert(self@.take(i as int) =~= self@);
        r
    }
}

proof fn lemma_blocks_html(s: Seq<Block>)
    ensures
        seq_html(s) == blocks_html(blocks_view(s)),
    decreases s.len(),
{
    if s.len() > 0 {
        lemma_blocks_html(s.drop_last());
        assert(blocks_view(s).drop_last() =~= blocks_view(s.drop_last()));
    }
}

/// Whether every block of a document has a rendering.
pub open spec fn document_renderable(blocks: Seq<BlockNode>) -> bool {
    forall|i: int| 0 <= i < blocks.len() ==> block_renderable(#[trigger] blocks[i])
}

impl ToHtml for Document {
    open spec fn renderable(&self) -> bool {
        document_renderable(self@)
    }

    open spec fn html(&self) -> Seq<char> {
        document_html(self@)
    }

    fn to_html(&self) -> (r: String) {
        proof {
            lemma_blocks_html(self.blocks@);
            assert forall|i: int| 0 <= i < self.blocks@.len() implies (#[trigger] self.blocks@[i]).renderable() by {
                assert(blocks_view(self.blocks@)[i] == self.blocks@[i]@);
            }
        }
        let mut r = "<!doctype html><html lang=en><head></head><body>".to_string();
        r.append(self.blocks.to_html().as_str());
        r.append("</body></html>");
        r
    }
}

/// Rendering is a function of the tree alone: documents with the same model render
/// to the same text, so rendering one document twice gives the same text twice.
pub proof fn lemma_render_deterministic(a: &Document, b: &Document)
    requires
        a@ == b@,
    ensures
        a.html() == b.html(),
{
}

} // verus!
