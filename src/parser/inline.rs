//! Inline parsing: one line of text to a sequence of spans.

use vstd::prelude::*;
use crate::ast::{Inline, InlineNode, inline_view, inlines_view};
use crate::error::{MdParseError, ParseErrorModel, unlocated};
use crate::parse_trait::CharCursor;
use crate::text::push_char;

verus! {

/// The characters that open a span: bold, italic, code and link.
pub open spec fn is_delimiter(c: char) -> bool {
    c == '*' || c == '_' || c == '`' || c == '['
}

/// The index of the first `c` in `s` at or after `from`, if there is one.
pub open spec fn find_from(s: Seq<char>, from: int, c: char) -> Option<int>
    decreases s.len() - from,
{
    if from < 0 || from >= s.len() {
        None
    } else if s[from] == c {
        Some(from)
    } else {
        find_from(s, from + 1, c)
    }
}

pub proof fn lemma_find_from(s: Seq<char>, from: int, c: char)
    requires
        0 <= from,
    ensures
        match find_from(s, from, c) {
            Some(k) => from <= k < s.len() && s[k] == c && forall|j: int| from <= j < k ==> s[j] != c,
            None => forall|j: int| from <= j < s.len() ==> s[j] != c,
        },
    decreases s.len() - from,
{
    if from < s.len() && s[from] != c {
        lemma_find_from(s, from + 1, c);
    }
}

/// The text of a plain run scanned from index `i`, with `escaped` telling whether the
/// previous character was an unused backslash, and the index where the run stops.
/// A backslash is dropped and makes the next character literal; an unescaped
/// delimiter or the end of `s` stops the run.
pub open spec fn text_run(s: Seq<char>, i: int, escaped: bool) -> (Seq<char>, int)
    decreases s.len() - i,
{
    if i < 0 || i >= s.len() {
        (Seq::empty(), i)
    } else if is_delimiter(s[i]) && !escaped {
        (Seq::empty(), i)
    } else if s[i] == '\\' && !escaped {
        text_run(s, i + 1, true)
    } else {
        let r = text_run(s, i + 1, false);
        (seq![s[i]] + r.0, r.1)
    }
}

pub proof fn lemma_text_run_bounds(s: Seq<char>, i: int, escaped: bool)
    requires
        0 <= i <= s.len(),
    ensures
        i <= text_run(s, i, escaped).1 <= s.len(),
    decreases s.len() - i,
{
    if i < s.len() {
        lemma_text_run_bounds(s, i + 1, true);
        lemma_text_run_bounds(s, i + 1, false);
    }
}

/// `node` followed by the nodes of `r`, or the error of `r`.
pub open spec fn prepend(node: InlineNode, r: Result<Seq<InlineNode>, ParseErrorModel>) -> Result<
    Seq<InlineNode>,
    ParseErrorModel,
> {
    match r {
        Ok(rest) => Ok(seq![node] + rest),
        Err(e) => Err(e),
    }
}

/// `acc` followed by the nodes of `r`, or the error of `r`.
pub open spec fn prepend_all(acc: Seq<InlineNode>, r: Result<Seq<InlineNode>, ParseErrorModel>) -> Result<
    Seq<InlineNode>,
    ParseErrorModel,
> {
    match r {
        Ok(rest) => Ok(acc + rest),
        Err(e) => Err(e),
    }
}

pub proof fn lemma_prepend_all_push(
    acc: Seq<InlineNode>,
    node: InlineNode,
    r: Result<Seq<InlineNode>, ParseErrorModel>,
)
    ensures
        prepend_all(acc, prepend(node, r)) == prepend_all(acc.push(node), r),
{
    if let Ok(rest) = r {
        assert(acc + (seq![node] + rest) =~= acc.push(node) + rest);
    }
}

/// The spans of `s` from index `i` on, or the first error met there.
pub open spec fn inlines_from(s: Seq<char>, i: int) -> Result<Seq<InlineNode>, ParseErrorModel>
    decreases s.len() - i,
{
    if i < 0 || i >= s.len() {
        Ok(Seq::empty())
    } else {
        let c = s[i];
        if c == '*' || c == '_' {
            match find_from(s, i + 1, c) {
                None => Err(unlocated(seq![c], Seq::empty())),
                Some(k) => {
                    proof {
                        lemma_find_from(s, i + 1, c);
                    }
                    match inlines_from(s.subrange(i + 1, k), 0) {
                        Err(e) => Err(e),
                        Ok(inner) => prepend(
                            if c == '*' {
                                InlineNode::Bold(inner)
                            } else {
                                InlineNode::Italic(inner)
                            },
                            inlines_from(s, k + 1),
                        ),
                    }
                },
            }
        } else if c == '`' {
            match find_from(s, i + 1, '`') {
                None => Err(unlocated(seq!['`'], Seq::empty())),
                Some(k) => {
                    proof {
                        lemma_find_from(s, i + 1, '`');
                    }
                    prepend(InlineNode::Code(s.subrange(i + 1, k)), inlines_from(s, k + 1))
                },
            }
        } else if c == '[' {
            match find_from(s, i + 1, ']') {
                None => Err(unlocated(seq![']'], Seq::empty())),
                Some(k) => {
                    proof {
                        lemma_find_from(s, i + 1, ']');
                    }
                    if k + 1 >= s.len() {
                        Err(unlocated(href_expected(), Seq::empty()))
                    } else if s[k + 1] != '(' {
                        Err(unlocated(href_expected(), seq![s[k + 1]]))
                    } else {
                        match find_from(s, k + 2, ')') {
                            None => Err(unlocated(seq![')'], Seq::empty())),
                            Some(m) => {
                                proof {
                                    lemma_find_from(s, k + 2, ')');
                                }
                                match inlines_from(s.subrange(i + 1, k), 0) {
                                    Err(e) => Err(e),
                                    Ok(text) => prepend(
                                        InlineNode::Link { text, href: s.subrange(k + 2, m) },
                                        inlines_from(s, m + 1),
                                    ),
                                }
                            },
                        }
                    }
                },
            }
        } else {
            proof {
                lemma_text_run_bounds(s, i + 1, false);
            }
            let r = text_run(s, i + 1, false);
            prepend(InlineNode::Text(seq![c] + r.0), inlines_from(s, r.1))
        }
    }
}

/// What a link must continue with after its text.
pub open spec fn href_expected() -> Seq<char> {
    "(<href>)"@
}

/// The spans of a whole line of text, or the first error met in it.
pub open spec fn inlines_spec(s: Seq<char>) -> Result<Seq<InlineNode>, ParseErrorModel> {
    inlines_from(s, 0)
}

/// The model of a parse result.
pub open spec fn inlines_result(r: Result<Vec<Inline>, MdParseError>) -> Result<Seq<InlineNode>, ParseErrorModel> {
    match r {
        Ok(v) => Ok(inlines_view(v@)),
        Err(e) => Err(e@),
    }
}

/// Consumes characters up to and including the next `end`, and returns those before it.
/// Fails, having consumed everything, when no `end` is left.
pub fn collect_until(chars: &mut CharCursor, end: char) -> (r: Result<String, MdParseError>)
    ensures
        final(chars).text() == old(chars).text(),
        final(chars).pos() <= final(chars).text().len(),
        match find_from(old(chars).text(), old(chars).pos() as int, end) {
            Some(k) => r is Ok && r->Ok_0@ == old(chars).text().subrange(old(chars).pos() as int, k)
                && final(chars).pos() == k + 1,
            None => r is Err && r->Err_0@ == unlocated(seq![end], Seq::empty()),
        },
{
    let ghost s = chars.text();
    let ghost start = chars.pos() as int;
    let _ = chars.position();
    let mut collected = String::new();
    proof {
        lemma_find_from(s, start, end);
    }
    loop
        invariant
            chars.text() == s,
            s == old(chars).text(),
            start == old(chars).pos(),
            start <= chars.pos() <= s.len(),
            collected@ == s.subrange(start, chars.pos() as int),
            forall|j: int| start <= j < chars.pos() ==> s[j] != end,
            find_from(s, start, end) == find_from(s, chars.pos() as int, end),
        decreases s.len() - chars.pos(),
    {
        let ghost p = chars.pos() as int;
        match chars.next_char() {
            Some(c) => {
                if c == end {
                    return Ok(collected);
                }
                push_char(&mut collected, c);
                assert(s.subrange(start, p + 1) =~= s.subrange(start, p).push(c));
            },
            None => {
                let mut expected = String::new();
                push_char(&mut expected, end);
                proof { reveal_strlit(""); }
                assert(""@ =~= Seq::<char>::empty());
                assert(expected@ =~= seq![end]);
                return Err(MdParseError::new(expected.as_str(), ""));
            },
        }
    }
}

/// Parses one line of text into its spans: `*bold*`, `_italic_`, `` `code` ``,
/// `[text](href)` and plain text, where a backslash makes the next character literal.
/// Bold, italic and link text are parsed again inside; code and href are kept verbatim.
pub fn parse_inlines(input: &str) -> (r: Result<Vec<Inline>, MdParseError>)
    ensures
        inlines_result(r) == inlines_spec(input@),
    decreases input@.len(),
{
    let ghost s = input@;
    let mut inlines: Vec<Inline> = Vec::new();
    let mut chars = CharCursor::new(input);
    loop
        invariant
            s == input@,
            chars.text() == s,
            chars.pos() <= s.len(),
            inlines_spec(s) == prepend_all(inlines_view(inlines@), inlines_from(s, chars.pos() as int)),
        decreases s.len() - chars.pos(),
    {
        let ghost p = chars.pos() as int;
        let ghost acc = inlines_view(inlines@);
        let next = chars.next_char();
        match next {
            None => {
                assert(acc + Seq::<InlineNode>::empty() =~= acc);
                return Ok(inlines);
            },
            Some(c) => {
                assert(p < s.len() && c == s[p]);
                let node: Inline;
                if c == '*' || c == '_' {
                    let inner = match collect_until(&mut chars, c) {
                        Ok(t) => t,
                        Err(e) => return Err(e),
                    };
                    proof {
                        lemma_find_from(s, p + 1, c);
                    }
                    let nodes = match parse_inlines(inner.as_str()) {
                        Ok(n) => n,
                        Err(e) => return Err(e),
                    };
                    node = if c == '*' { Inline::Bold(nodes) } else { Inline::Italic(nodes) };
                } else if c == '`' {
                    let code = match collect_until(&mut chars, '`') {
                        Ok(t) => t,
                        Err(e) => return Err(e),
                    };
                    proof {
                        lemma_find_from(s, p + 1, '`');
                    }
                    node = Inline::Code(code);
                } else if c == '[' {
                    let text = match collect_until(&mut chars, ']') {
                        Ok(t) => t,
                        Err(e) => return Err(e),
                    };
                    proof {
                        lemma_find_from(s, p + 1, ']');
                    }
                    match chars.next_char() {
                        Some('(') => {},
                        Some(other) => {
                            let mut got = String::new();
                            push_char(&mut got, other);
                            let e = MdParseError::new("(<href>)", got.as_str());
                            assert(got@ =~= seq![other]);
                            return Err(e);
                        },
                        None => {
                            let e = MdParseError::new("(<href>)", "");
                            proof { reveal_strlit(""); }
                            assert(""@ =~= Seq::<char>::empty());
                            assert(chars.pos() == s.len());
                            return Err(e);
                        },
                    }
                    let ghost old_pos_href = chars.pos() as int;
                    let href = match collect_until(&mut chars, ')') {
                        Ok(t) => t,
                        Err(e) => return Err(e),
                    };
                    proof {
                        lemma_find_from(s, old_pos_href, ')');
                    }
                    let nodes = match parse_inlines(text.as_str()) {
                        Ok(n) => n,
                        Err(e) => return Err(e),
                    };
                    node = Inline::Link { text: nodes, href };
                } else {
                    let mut text = String::new();
                    push_char(&mut text, c);
                    let mut escaped = false;
                    proof {
                        lemma_text_run_bounds(s, p + 1, false);
                    }
                    loop
                        invariant
                            chars.text() == s,
                            p + 1 <= chars.pos() <= s.len(),
                            seq![c] + text_run(s, p + 1, false).0 == text@ + text_run(s, chars.pos() as int, escaped).0,
                            text_run(s, p + 1, false).1 == text_run(s, chars.pos() as int, escaped).1,
                        ensures
                            text_run(s, chars.pos() as int, escaped).0 == Seq::<char>::empty(),
                            text_run(s, chars.pos() as int, escaped).1 == chars.pos(),
                        decreases s.len() - chars.pos(),
                    {
                        let ghost q = chars.pos() as int;
                        let ghost t0 = text@;
                        let ghost e0 = escaped;
                        match chars.peek() {
                            None => break,
                            Some(nc) => {
                                if (nc == '*' || nc == '_' || nc == '`' || nc == '[') && !escaped {
                                    break;
                                }
                                let _ = chars.next_char();
                                if nc == '\\' && !escaped {
                                    escaped = true;
                                } else {
                                    escaped = false;
                                    push_char(&mut text, nc);
                                    let ghost r = text_run(s, q + 1, false);
                                    assert(t0 + (seq![nc] + r.0) =~= text@ + r.0);
                                }
                            },
                        }
                    }
                    node = Inline::Text(text);
                }
                proof {
                    assert(chars.pos() > p);
                    assert(inlines_from(s, p) == prepend(inline_view(&node), inlines_from(s, chars.pos() as int)));
                    lemma_prepend_all_push(acc, inline_view(&node), inlines_from(s, chars.pos() as int));
                }
                let ghost n = inline_view(&node);
                inlines.push(node);
                proof {
                    assert(inlines_view(inlines@) =~= acc.push(n));
                }
            },
        }
    }
}

} // verus!
