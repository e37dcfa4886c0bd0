//! Block parsing: a whole document, line by line, to a sequence of blocks.

use vstd::prelude::*;
use crate::ast::{Block, BlockNode, InlineNode, blocks_view, inlines_view};
use crate::error::{MdParseError, ParseErrorModel, at_line, locate};
use crate::parse_trait::{CharCursor, Parse, starts_with};
use crate::parser::inline::{find_from, inlines_from, inlines_spec, lemma_find_from, parse_inlines, text_run};
use crate::to_html::document_renderable;
use crate::text::{chars_of, push_char, string_of, strings_view};

verus! {

/// The lines of `s` from index `start` on: each ends before a `'\n'`, and a `'\r'` just
/// before that `'\n'` is dropped. A final line ending starts no further line.
pub open spec fn lines_from(s: Seq<char>, start: int) -> Seq<Seq<char>>
    decreases s.len() - start,
{
    if start < 0 || start >= s.len() {
        Seq::empty()
    } else {
        match find_from(s, start, '\n') {
            None => seq![s.subrange(start, s.len() as int)],
            Some(k) => {
                proof {
                    lemma_find_from(s, start, '\n');
                }
                seq![strip_cr(s.subrange(start, k))] + lines_from(s, k + 1)
            },
        }
    }
}

/// `l` without one trailing `'\r'`.
pub open spec fn strip_cr(l: Seq<char>) -> Seq<char> {
    if l.len() > 0 && l.last() == '\r' {
        l.drop_last()
    } else {
        l
    }
}

/// The lines of a whole text.
pub open spec fn lines_of(s: Seq<char>) -> Seq<Seq<char>> {
    lines_from(s, 0)
}

/// The index of the first character at or after `i` in `l` that is not `c`.
pub open spec fn skip_run(l: Seq<char>, i: int, c: char) -> int
    decreases l.len() - i,
{
    if 0 <= i < l.len() && l[i] == c {
        skip_run(l, i + 1, c)
    } else {
        i
    }
}

/// The three backticks that open and close a code block.
pub open spec fn fence() -> Seq<char> {
    "```"@
}

/// The index of the first line at or after `j` that begins with a fence.
pub open spec fn fence_from(lines: Seq<Seq<char>>, j: int) -> Option<int>
    decreases lines.len() - j,
{
    if j < 0 || j >= lines.len() {
        None
    } else if starts_with(lines[j], fence()) {
        Some(j)
    } else {
        fence_from(lines, j + 1)
    }
}

/// The body of a code block: lines `a..b`, each followed by a `'\n'`.
pub open spec fn code_text(lines: Seq<Seq<char>>, a: int, b: int) -> Seq<char>
    decreases b - a,
{
    if b <= a {
        Seq::empty()
    } else {
        code_text(lines, a, b - 1) + lines[b - 1].push('\n')
    }
}

/// Whether `c` has the Unicode `White_Space` property.
pub open spec fn is_white_space(c: char) -> bool {
    let u = c as u32;
    (0x9 <= u <= 0xd) || u == 0x20 || u == 0x85 || u == 0xa0 || u == 0x1680 || (0x2000 <= u
        <= 0x200a) || u == 0x2028 || u == 0x2029 || u == 0x202f || u == 0x205f || u == 0x3000
}

/// Whether a line is empty or holds only white space.
pub open spec fn is_blank(l: Seq<char>) -> bool {
    forall|j: int| 0 <= j < l.len() ==> is_white_space(#[trigger] l[j])
}

/// `b` followed by the blocks of `r`, or the error of `r`.
pub open spec fn prepend_block(b: BlockNode, r: Result<Seq<BlockNode>, ParseErrorModel>) -> Result<
    Seq<BlockNode>,
    ParseErrorModel,
> {
    match r {
        Ok(rest) => Ok(seq![b] + rest),
        Err(e) => Err(e),
    }
}

/// `acc` followed by the blocks of `r`, or the error of `r`.
pub open spec fn prepend_blocks(acc: Seq<BlockNode>, r: Result<Seq<BlockNode>, ParseErrorModel>) -> Result<
    Seq<BlockNode>,
    ParseErrorModel,
> {
    match r {
        Ok(rest) => Ok(acc + rest),
        Err(e) => Err(e),
    }
}

/// The heading level for `n` leading `#` characters.
pub open spec fn heading_level(n: int) -> nat {
    if n < 6 { n as nat } else { 6 }
}

/// The blocks of the lines from index `i` on (line `i` is line number `i + 1`),
/// or the first error met there.
pub open spec fn blocks_from(lines: Seq<Seq<char>>, i: int) -> Result<Seq<BlockNode>, ParseErrorModel>
    decreases lines.len() - i,
{
    if i < 0 || i >= lines.len() {
        Ok(Seq::empty())
    } else {
        let line = lines[i];
        let n = skip_run(line, 0, '#');
        if n > 0 {
            if n < line.len() && line[n] == ' ' {
                match inlines_spec(line.subrange(n + 1, line.len() as int)) {
                    Err(e) => Err(locate(e, (i + 1) as nat)),
                    Ok(content) => prepend_block(
                        BlockNode::Heading { level: heading_level(n), content },
                        blocks_from(lines, i + 1),
                    ),
                }
            } else {
                Err(at_line((i + 1) as nat, "<space> after #"@, "no <space>"@))
            }
        } else if starts_with(line, fence()) {
            match fence_from(lines, i + 1) {
                None => Err(at_line((i + 1) as nat, "a terminating '```'"@, Seq::empty())),
                Some(j) => {
                    proof {
                        lemma_fence_from(lines, i + 1);
                    }
                    if lines[j].len() > 3 {
                        Err(at_line((j + 1) as nat, fence(), lines[j]))
                    } else {
                        prepend_block(
                            BlockNode::Code {
                                language: if line.len() == 3 {
                                    None
                                } else {
                                    Some(line.subrange(3, line.len() as int))
                                },
                                content: code_text(lines, i + 1, j),
                            },
                            blocks_from(lines, j + 1),
                        )
                    }
                },
            }
        } else if is_blank(line) {
            blocks_from(lines, i + 1)
        } else {
            match inlines_spec(line) {
                Err(e) => Err(locate(e, (i + 1) as nat)),
                Ok(content) => prepend_block(BlockNode::Paragraph(content), blocks_from(lines, i + 1)),
            }
        }
    }
}

pub proof fn lemma_fence_from(lines: Seq<Seq<char>>, j: int)
    requires
        0 <= j,
    ensures
        match fence_from(lines, j) {
            Some(k) => j <= k < lines.len() && starts_with(lines[k], fence()) && forall|m: int|
                j <= m < k ==> !starts_with(#[trigger] lines[m], fence()),
            None => forall|m: int| j <= m < lines.len() ==> !starts_with(#[trigger] lines[m], fence()),
        },
    decreases lines.len() - j,
{
    if j < lines.len() && !starts_with(lines[j], fence()) {
        lemma_fence_from(lines, j + 1);
    }
}

/// The blocks of a whole document, or the first error met in it.
pub open spec fn blocks_spec(s: Seq<char>) -> Result<Seq<BlockNode>, ParseErrorModel> {
    blocks_from(lines_of(s), 0)
}

/// The model of a block parse result.
pub open spec fn blocks_result(r: Result<Vec<Block>, MdParseError>) -> Result<Seq<BlockNode>, ParseErrorModel> {
    match r {
        Ok(v) => Ok(blocks_view(v@)),
        Err(e) => Err(e@),
    }
}

/// Splits a text into its lines, as `lines_of` describes.
pub fn split_lines(input: &str) -> (r: Vec<String>)
    ensures
        strings_view(r@) == lines_of(input@),
{
    let chars = chars_of(input);
    let ghost s = input@;
    let mut lines: Vec<String> = Vec::new();
    let mut start: usize = 0;
    let mut i: usize = 0;
    while i < chars.len()
        invariant
            s == chars@,
            start <= i <= chars.len(),
            forall|j: int| start <= j < i ==> s[j] != '\n',
            find_from(s, start as int, '\n') == find_from(s, i as int, '\n'),
            lines_of(s) == strings_view(lines@) + lines_from(s, start as int),
        decreases chars.len() - i,
    {
        if chars[i] == '\n' {
            let end = if i > start && chars[i - 1] == '\r' { i - 1 } else { i };
            let line = string_of(&chars, start, end);
            proof {
                assert(strip_cr(s.subrange(start as int, i as int)) =~= s.subrange(start as int, end as int));
                assert(lines_from(s, start as int) == seq![line@] + lines_from(s, i + 1));
                assert(strings_view(lines@.push(line)) =~= strings_view(lines@).push(line@));
                assert(strings_view(lines@) + (seq![line@] + lines_from(s, i + 1)) =~= strings_view(lines@).push(line@) + lines_from(s, i + 1));
            }
            lines.push(line);
            start = i + 1;
        }
        i = i + 1;
    }
    if start < chars.len() {
        let line = string_of(&chars, start, chars.len());
        proof {
            assert(lines_from(s, start as int) == seq![line@]);
            assert(strings_view(lines@.push(line)) =~= strings_view(lines@) + seq![line@]);
        }
        lines.push(line);
    } else {
        assert(strings_view(lines@) + Seq::<Seq<char>>::empty() =~= strings_view(lines@));
    }
    lines
}

fn is_white_space_char(c: char) -> (r: bool)
    ensures
        r == is_white_space(c),
{
    let u = c as u32;
    (0x9 <= u && u <= 0xd) || u == 0x20 || u == 0x85 || u == 0xa0 || u == 0x1680 || (0x2000 <= u
        && u <= 0x200a) || u == 0x2028 || u == 0x2029 || u == 0x202f || u == 0x205f || u == 0x3000
}

/// Whether a line is empty or holds only white space.
pub fn is_blank_line(line: &str) -> (r: bool)
    ensures
        r == is_blank(line@),
{
    let chars = chars_of(line);
    let mut i: usize = 0;
    while i < chars.len()
        invariant
            chars@ == line@,
            i <= chars.len(),
            forall|j: int| 0 <= j < i ==> is_white_space(#[trigger] chars@[j]),
        decreases chars.len() - i,
    {
        if !is_white_space_char(chars[i]) {
            return false;
        }
        i = i + 1;
    }
    true
}

/// `e`, located on `line` unless it already names a line.
fn locate_error(e: MdParseError, line: usize) -> (r: MdParseError)
    ensures
        r@ == locate(e@, line as nat),
{
    match e.line() {
        Some(_) => e,
        None => e.set_line(line),
    }
}

/// Parses a whole document into its blocks, one line at a time: headings (`#` to
/// `######`, then a space), fenced code blocks, blank lines (skipped) and paragraphs.
/// Stops at the first error, which names the line it was found on.
pub fn parse_blocks(input: &str) -> (r: Result<Vec<Block>, MdParseError>)
    ensures
        blocks_result(r) == blocks_spec(input@),
{
    let lines = split_lines(input);
    let ghost ls = lines_of(input@);
    let mut blocks: Vec<Block> = Vec::new();
    let mut i: usize = 0;
    proof {
        reveal_strlit("```");
        reveal_strlit("");
        assert(blocks_view(blocks@) + blocks_from(ls, 0)->Ok_0 =~= blocks_from(ls, 0)->Ok_0);
    }
    while i < lines.len()
        invariant
            ls == lines_of(input@),
            strings_view(lines@) == ls,
            i <= lines.len(),
            fence().len() == 3,
            blocks_spec(input@) == prepend_blocks(blocks_view(blocks@), blocks_from(ls, i as int)),
        decreases lines.len() - i,
    {
        let ghost acc = blocks_view(blocks@);
        let ghost l = ls[i as int];
        let mut cursor = CharCursor::new(lines[i].as_str());
        proof {
            cursor.lemma_rest();
            assert(cursor.rest() =~= l);
        }
        // heading
        let mut level: u8 = 0;
        let ghost mut count: int = 0;
        loop
            invariant
                0 <= count <= l.len(),
                cursor.rest() == l.skip(count),
                level == heading_level(count),
                skip_run(l, 0, '#') == skip_run(l, count, '#'),
            ensures
                cursor.rest() == l.skip(count),
                level == heading_level(count),
                skip_run(l, 0, '#') == count,
            decreases l.len() - count,
        {
            if !cursor.parse_token('#') {
                break;
            }
            if level < 6 {
                level = level + 1;
            }
            proof {
                assert(l.skip(count).drop_first() =~= l.skip(count + 1));
                count = count + 1;
            }
        }
        if level > 0 {
            if !cursor.parse_token(' ') {
                return Err(MdParseError::from_line(i + 1, "<space> after #", "no <space>"));
            }
            let rest = cursor.take_rest();
            assert(rest@ =~= l.subrange(count + 1, l.len() as int));
            let content = match parse_inlines(rest.as_str()) {
                Ok(c) => c,
                Err(e) => return Err(locate_error(e, i + 1)),
            };
            let ghost b = block_node_of_heading(level, content@);
            blocks.push(Block::Heading { level, content });
            proof {
                assert(blocks_view(blocks@) =~= acc.push(b));
                lemma_prepend_blocks_push(acc, b, blocks_from(ls, i + 1));
            }
            i = i + 1;
            continue;
        }
        // code
        if cursor.parse_str("```") {
            assert(starts_with(l, fence()));
            let lang_line = cursor.take_rest();
            assert(lang_line@ =~= l.subrange(3, l.len() as int));
            let lang = if lang_line.as_str().is_empty() {
                None
            } else {
                Some(lang_line)
            };
            let mut code = String::new();
            let mut j: usize = i + 1;
            proof {
                lemma_fence_from(ls, i + 1);
            }
            loop
                invariant_except_break
                    fence_from(ls, i + 1) == fence_from(ls, j as int),
                invariant
                    ls == lines_of(input@),
                    strings_view(lines@) == ls,
                    i < j <= lines.len(),
                    fence().len() == 3,
                    l == ls[i as int],
                    starts_with(l, fence()),
                    skip_run(l, 0, '#') == 0,
                    code@ == code_text(ls, i + 1, j as int),
                    blocks_view(blocks@) == acc,
                    blocks_spec(input@) == prepend_blocks(acc, blocks_from(ls, i as int)),
                ensures
                    j < lines.len(),
                    fence_from(ls, i + 1) == Some(j as int),
                    ls[j as int].len() == 3 as nat,
                decreases lines.len() - j,
            {
                if j >= lines.len() {
                    proof {
                        reveal_strlit("");
                        assert(""@ =~= Seq::<char>::empty());
                    }
                    return Err(MdParseError::from_line(i + 1, "a terminating '```'", ""));
                }
                let mut closing = CharCursor::new(lines[j].as_str());
                proof {
                    closing.lemma_rest();
                    assert(closing.rest() =~= ls[j as int]);
                }
                if closing.parse_str("```") {
                    let remaining = closing.take_rest();
                    if remaining.as_str().is_empty() {
                        assert(ls[j as int] =~= ls[j as int].take(3));
                        break;
                    } else {
                        let mut got = "```".to_string();
                        got.append(remaining.as_str());
                        assert(got@ =~= ls[j as int]);
                        return Err(MdParseError::from_line(j + 1, "```", got.as_str()));
                    }
                } else {
                    code.append(lines[j].as_str());
                    push_char(&mut code, '\n');
                    assert(code@ =~= code_text(ls, i + 1, j + 1));
                    j = j + 1;
                }
            }
            let ghost b = block_node_of_code(lang, code@);
            blocks.push(Block::Code { language: lang, content: code });
            proof {
                assert(blocks_view(blocks@) =~= acc.push(b));
                lemma_prepend_blocks_push(acc, b, blocks_from(ls, j + 1));
            }
            i = j + 1;
            continue;
        }
        // blank line
        if is_blank_line(lines[i].as_str()) {
            i = i + 1;
            continue;
        }
        // paragraph
        let content = match parse_inlines(lines[i].as_str()) {
            Ok(c) => c,
            Err(e) => return Err(locate_error(e, i + 1)),
        };
        let ghost b = BlockNode::Paragraph(inlines_view(content@));
        blocks.push(Block::Paragraph(content));
        proof {
            assert(blocks_view(blocks@) =~= acc.push(b));
            lemma_prepend_blocks_push(acc, b, blocks_from(ls, i + 1));
        }
        i = i + 1;
    }
    proof {
        assert(blocks_view(blocks@) + Seq::<BlockNode>::empty() =~= blocks_view(blocks@));
    }
    Ok(blocks)
}

pub open spec fn block_node_of_heading(level: u8, content: Seq<crate::ast::Inline>) -> BlockNode {
    BlockNode::Heading { level: level as nat, content: inlines_view(content) }
}

pub open spec fn block_node_of_code(lang: Option<String>, content: Seq<char>) -> BlockNode {
    BlockNode::Code {
        language: match lang {
            Some(l) => Some(l@),
            None => None,
        },
        content,
    }
}

pub proof fn lemma_prepend_blocks_push(
    acc: Seq<BlockNode>,
    b: BlockNode,
    r: Result<Seq<BlockNode>, ParseErrorModel>,
)
    ensures
        prepend_blocks(acc, prepend_block(b, r)) == prepend_blocks(acc.push(b), r),
{
    if let Ok(rest) = r {
        assert(acc + (seq![b] + rest) =~= acc.push(b) + rest);
    }
}

/// `n` copies of `#`.
pub open spec fn hashes(n: nat) -> Seq<char> {
    Seq::new(n, |i: int| '#')
}

proof fn lemma_skip_hashes(l: Seq<char>, n: nat, j: int)
    requires
        0 <= j <= n < l.len(),
        forall|k: int| 0 <= k < n ==> l[k] == '#',
        l[n as int] != '#',
    ensures
        skip_run(l, j, '#') == n,
    decreases n - j,
{
    if j < n {
        lemma_skip_hashes(l, n, j + 1);
    }
}

proof fn lemma_single_line(s: Seq<char>)
    requires
        s.len() > 0,
        forall|k: int| 0 <= k < s.len() ==> s[k] != '\n',
    ensures
        lines_of(s) == seq![s],
{
    lemma_find_from(s, 0, '\n');
    assert(s.subrange(0, s.len() as int) =~= s);
}

/// A line of one or more `#` then a space is a heading whose level is the number of
/// `#`, at most 6, and whose content is the rest of the line; without the space the
/// line is an error on line 1.
pub proof fn lemma_heading_levels(n: nat)
    requires
        n >= 1,
    ensures
        blocks_spec(hashes(n) + " text"@) == Ok::<Seq<BlockNode>, ParseErrorModel>(
            seq![BlockNode::Heading { level: heading_level(n as int), content: seq![InlineNode::Text("text"@)] }],
        ),
        blocks_spec(hashes(n) + "text"@) == Err::<Seq<BlockNode>, ParseErrorModel>(
            at_line(1, "<space> after #"@, "no <space>"@),
        ),
{
    reveal_strlit(" text");
    reveal_strlit("text");
    let good = hashes(n) + " text"@;
    let bad = hashes(n) + "text"@;
    lemma_single_line(good);
    lemma_single_line(bad);
    lemma_skip_hashes(good, n, 0);
    lemma_skip_hashes(bad, n, 0);
    let t = good.subrange(n + 1int, good.len() as int);
    assert(t =~= "text"@);
    reveal_with_fuel(text_run, 5);
    assert(t[0] == 't' && t[1] == 'e' && t[2] == 'x' && t[3] == 't' && t.len() == 4);
    assert(text_run(t, 1, false).0 =~= seq!['e', 'x', 't']);
    assert(text_run(t, 1, false).1 == 4);
    assert(inlines_from(t, 4) == Ok::<Seq<InlineNode>, ParseErrorModel>(Seq::empty()));
    assert(seq!['t'] + seq!['e', 'x', 't'] =~= "text"@);
    assert(seq![InlineNode::Text("text"@)] + Seq::<InlineNode>::empty() =~= seq![InlineNode::Text("text"@)]);
    assert(inlines_spec(t) == Ok::<Seq<InlineNode>, ParseErrorModel>(seq![InlineNode::Text("text"@)]));
    let h = BlockNode::Heading { level: heading_level(n as int), content: seq![InlineNode::Text("text"@)] };
    assert(blocks_from(seq![good], 1) == Ok::<Seq<BlockNode>, ParseErrorModel>(Seq::empty()));
    assert(seq![h] + Seq::<BlockNode>::empty() =~= seq![h]);
}

/// A document that parses holds no block without a rendering: the grammar never
/// produces lists or quotes.
pub proof fn lemma_parsed_renderable(lines: Seq<Seq<char>>, i: int)
    requires
        0 <= i,
        blocks_from(lines, i) is Ok,
    ensures
        document_renderable(blocks_from(lines, i)->Ok_0),
    decreases lines.len() - i,
{
    if i < lines.len() {
        let line = lines[i];
        let n = skip_run(line, 0, '#');
        if n > 0 {
            lemma_parsed_renderable(lines, i + 1);
        } else if starts_with(line, fence()) {
            lemma_fence_from(lines, i + 1);
            if let Some(j) = fence_from(lines, i + 1) {
                if lines[j].len() <= 3 {
                    lemma_parsed_renderable(lines, j + 1);
                }
            }
        } else {
            lemma_parsed_renderable(lines, i + 1);
        }
    }
}

/// A code block that is never closed is an error located on the line that opened it:
/// when line `i` begins with a fence and no later line does, parsing from line `i`
/// fails on line `i + 1`.
pub proof fn lemma_unterminated_fence(lines: Seq<Seq<char>>, i: int)
    requires
        0 <= i < lines.len(),
        starts_with(lines[i], fence()),
        forall|j: int| i < j < lines.len() ==> !starts_with(#[trigger] lines[j], fence()),
    ensures
        blocks_from(lines, i) == Err::<Seq<BlockNode>, ParseErrorModel>(
            at_line((i + 1) as nat, "a terminating '```'"@, Seq::empty()),
        ),
{
    reveal_strlit("```");
    assert(fence()[0] == '`');
    assert(lines[i].take(3)[0] == lines[i][0]);
    assert(lines[i][0] == '`');
    lemma_fence_from(lines, i + 1);
    if let Some(k) = fence_from(lines, i + 1) {
        assert(starts_with(lines[k], fence()));
    }
    assert(skip_run(lines[i], 0, '#') == 0);
}

} // verus!
