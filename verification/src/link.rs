//! The inline link parser: one left-to-right scan for the first
//! `[text](url)` construct of a line, and its rendering as an anchor.

use vstd::prelude::*;
use vstd::string::*;
use crate::markup::{ANCHOR_END, ANCHOR_MIDDLE, ANCHOR_START};
use crate::text::{
    append_range, find_from, first_index_from, lacks, lemma_first_index_from,
    lemma_first_index_from_unique, to_chars,
};

verus! {

/// Where the first link construct of a line lies. All fields index the
/// characters of the line.
#[derive(Clone, Copy, Debug, PartialEq, Eq)]
pub struct LinkSpan {
    /// First character of the visible text, just after the `[`.
    pub text_start: usize,
    /// The `]` that ends the visible text.
    pub text_end: usize,
    /// First character of the URL; equal to `url_end` when there is no URL.
    pub url_start: usize,
    /// End of the URL: the `)` when there is a URL.
    pub url_end: usize,
    /// First character that follows the construct.
    pub tail_start: usize,
}

/// Index of the first `[`, or the length of the line.
pub open spec fn bracket_open(line: Seq<char>) -> int {
    first_index_from(line, '[', 0)
}

/// Index of the first `]` behind the first `[`, or the length of the line.
pub open spec fn bracket_close(line: Seq<char>) -> int {
    first_index_from(line, ']', bracket_open(line) + 1)
}

/// Index of the first `(` behind that `]`, or the length of the line.
pub open spec fn paren_open(line: Seq<char>) -> int {
    first_index_from(line, '(', bracket_close(line) + 1)
}

/// Index of the first `)` behind that `(`, or the length of the line.
pub open spec fn paren_close(line: Seq<char>) -> int {
    first_index_from(line, ')', paren_open(line) + 1)
}

/// A line holds a link when a `]` follows its first `[`.
pub open spec fn has_link(line: Seq<char>) -> bool {
    bracket_close(line) < line.len()
}

/// The link has a URL when a `(` follows the `]` and a `)` follows that `(`.
pub open spec fn has_url(line: Seq<char>) -> bool {
    has_link(line) && paren_close(line) < line.len()
}

/// What stands before the `[`.
pub open spec fn link_prefix(line: Seq<char>) -> Seq<char> {
    line.subrange(0, bracket_open(line))
}

/// The visible text: what stands between `[` and `]`.
pub open spec fn link_text(line: Seq<char>) -> Seq<char> {
    line.subrange(bracket_open(line) + 1, bracket_close(line))
}

/// The URL: what stands between `(` and `)`, or nothing.
pub open spec fn link_url(line: Seq<char>) -> Seq<char> {
    if has_url(line) {
        line.subrange(paren_open(line) + 1, paren_close(line))
    } else {
        Seq::empty()
    }
}

/// Index of the first character behind the construct: behind the `)` when
/// there is a URL, behind the `]` otherwise.
pub open spec fn link_tail_start(line: Seq<char>) -> int {
    if has_url(line) {
        paren_close(line) + 1
    } else {
        bracket_close(line) + 1
    }
}

/// What stands behind the construct.
pub open spec fn link_suffix(line: Seq<char>) -> Seq<char> {
    line.subrange(link_tail_start(line), line.len() as int)
}

impl LinkSpan {
    /// `self` is the span of the first link construct of `line`.
    pub open spec fn locates(self, line: Seq<char>) -> bool {
        &&& has_link(line)
        &&& self.text_start == bracket_open(line) + 1
        &&& self.text_end == bracket_close(line)
        &&& self.url_start == if has_url(line) {
            paren_open(line) + 1
        } else {
            bracket_close(line)
        }
        &&& self.url_end == if has_url(line) {
            paren_close(line)
        } else {
            bracket_close(line)
        }
        &&& self.tail_start == link_tail_start(line)
    }
}

/// The anchor element for `url` and `text`.
pub open spec fn anchor(url: Seq<char>, text: Seq<char>) -> Seq<char> {
    ANCHOR_START@ + url + ANCHOR_MIDDLE@ + text + ANCHOR_END@
}

/// A line with its first link construct rewritten as an anchor; a line
/// without one is left as it is.
pub open spec fn render_link(line: Seq<char>) -> Seq<char> {
    if has_link(line) {
        link_prefix(line) + anchor(link_url(line), link_text(line)) + link_suffix(line)
    } else {
        line
    }
}

/// The positions of a link construct are ordered and lie inside the line.
pub proof fn lemma_link_positions(line: Seq<char>)
    requires
        has_link(line),
    ensures
        0 <= bracket_open(line) < bracket_close(line) < line.len(),
        line[bracket_open(line)] == '[',
        line[bracket_close(line)] == ']',
        bracket_close(line) < paren_open(line) <= line.len(),
        has_url(line) ==> paren_open(line) < paren_close(line) < line.len(),
        has_url(line) ==> line[paren_open(line)] == '(' && line[paren_close(line)] == ')',
        bracket_close(line) < link_tail_start(line) <= line.len(),
{
    lemma_first_index_from(line, '[', 0);
    let open = bracket_open(line);
    if open < line.len() {
        lemma_first_index_from(line, ']', open + 1);
        let close = bracket_close(line);
        lemma_first_index_from(line, '(', close + 1);
        let paren = paren_open(line);
        if paren < line.len() {
            lemma_first_index_from(line, ')', paren + 1);
        }
    }
}

/// Locates the first link construct of `line`.
pub fn find_link(line: &[char]) -> (span: Option<LinkSpan>)
    ensures
        span is Some <==> has_link(line@),
        span matches Some(found) ==> found.locates(line@),
{
    let len = line.len();
    let open = find_from(line, '[', 0);
    if open == len {
        return None;
    }
    let close = find_from(line, ']', open + 1);
    if close == len {
        return None;
    }
    proof {
        lemma_link_positions(line@);
    }
    let paren = find_from(line, '(', close + 1);
    if paren < len {
        let end = find_from(line, ')', paren + 1);
        if end < len {
            return Some(
                LinkSpan {
                    text_start: open + 1,
                    text_end: close,
                    url_start: paren + 1,
                    url_end: end,
                    tail_start: end + 1,
                },
            );
        }
    }
    Some(
        LinkSpan {
            text_start: open + 1,
            text_end: close,
            url_start: close,
            url_end: close,
            tail_start: close + 1,
        },
    )
}

/// Appends `line`, with its first link construct rewritten as an anchor, to
/// `out`.
pub fn append_rendered_link(out: &mut String, line: &[char])
    ensures
        final(out)@ == old(out)@ + render_link(line@),
{
    let found = find_link(line);
    match found {
        None => {
            append_range(out, line, 0, line.len());
        },
        Some(span) => {
            proof {
                lemma_link_positions(line@);
            }
            append_range(out, line, 0, span.text_start - 1);
            out.append(ANCHOR_START);
            append_range(out, line, span.url_start, span.url_end);
            out.append(ANCHOR_MIDDLE);
            append_range(out, line, span.text_start, span.text_end);
            out.append(ANCHOR_END);
            append_range(out, line, span.tail_start, line.len());
        },
    }
}

/// Rewrites the first `[text](url)` construct of `line` as
/// `<a href="url">text</a>`, keeping what stands before and behind it. A line
/// in which no `]` follows the first `[` comes back unchanged.
pub fn process_link_markdown(line: &String) -> (html: String)
    ensures
        html@ == render_link(line@),
{
    let chars = to_chars(line.as_str());
    let mut html = String::new();
    append_rendered_link(&mut html, chars.as_slice());
    html
}

/// A well-formed link is rewritten exactly: for every `before` without `[`,
/// `text` without `]` and `url` without `)`, the line
/// `before[text](url)after` becomes `before<a href="url">text</a>after`.
pub proof fn lemma_link_round_trip(
    before: Seq<char>,
    text: Seq<char>,
    url: Seq<char>,
    after: Seq<char>,
)
    requires
        lacks(before, '['),
        lacks(text, ']'),
        lacks(url, ')'),
    ensures
        render_link(before + seq!['['] + text + seq![']', '('] + url + seq![')'] + after)
            == before + anchor(url, text) + after,
{
    let line = before + seq!['['] + text + seq![']', '('] + url + seq![')'] + after;
    let open = before.len() as int;
    let close = open + 1 + text.len();
    let paren = close + 1;
    let end = paren + 1 + url.len();
    assert(line[open] == '[');
    assert(line[close] == ']');
    assert(line[paren] == '(');
    assert(line[end] == ')');
    assert forall|i: int| 0 <= i < open implies line[i] != '[' by {
        assert(line[i] == before[i]);
    }
    assert forall|i: int| open + 1 <= i < close implies line[i] != ']' by {
        assert(line[i] == text[i - open - 1]);
    }
    assert forall|i: int| paren + 1 <= i < end implies line[i] != ')' by {
        assert(line[i] == url[i - paren - 1]);
    }
    lemma_first_index_from_unique(line, '[', 0, open);
    lemma_first_index_from_unique(line, ']', open + 1, close);
    lemma_first_index_from_unique(line, '(', close + 1, paren);
    lemma_first_index_from_unique(line, ')', paren + 1, end);
    assert(link_prefix(line) == before);
    assert(link_text(line) == text);
    assert(link_url(line) == url);
    assert(link_suffix(line) == after);
}

/// A line without any `[` is left as it is.
pub proof fn lemma_line_without_bracket_unchanged(line: Seq<char>)
    requires
        lacks(line, '['),
    ensures
        render_link(line) == line,
{
    lemma_first_index_from(line, '[', 0);
}

/// A line in which no `]` follows the first `[` is left as it is.
pub proof fn lemma_unclosed_bracket_unchanged(line: Seq<char>)
    requires
        forall|i: int| bracket_open(line) < i < line.len() ==> line[i] != ']',
    ensures
        render_link(line) == line,
{
    lemma_first_index_from(line, '[', 0);
    if bracket_open(line) < line.len() {
        lemma_first_index_from(line, ']', bracket_open(line) + 1);
    }
}

/// A link without a URL part is an anchor with an empty `href`: for every
/// `before` without `[`, `text` without `]` and `after` without `(`, the line
/// `before[text]after` becomes `before<a href="">text</a>after`.
pub proof fn lemma_link_without_url(before: Seq<char>, text: Seq<char>, after: Seq<char>)
    requires
        lacks(before, '['),
        lacks(text, ']'),
        lacks(after, '('),
    ensures
        render_link(before + seq!['['] + text + seq![']'] + after) == before + anchor(
            Seq::empty(),
            text,
        ) + after,
{
    let line = before + seq!['['] + text + seq![']'] + after;
    let open = before.len() as int;
    let close = open + 1 + text.len();
    assert(line[open] == '[');
    assert(line[close] == ']');
    assert forall|i: int| 0 <= i < open implies line[i] != '[' by {
        assert(line[i] == before[i]);
    }
    assert forall|i: int| open + 1 <= i < close implies line[i] != ']' by {
        assert(line[i] == text[i - open - 1]);
    }
    assert forall|i: int| close + 1 <= i < line.len() implies line[i] != '(' by {
        assert(line[i] == after[i - close - 1]);
    }
    lemma_first_index_from_unique(line, '[', 0, open);
    lemma_first_index_from_unique(line, ']', open + 1, close);
    lemma_first_index_from_unique(line, '(', close + 1, line.len() as int);
    assert(link_prefix(line) == before);
    assert(link_text(line) == text);
    assert(link_suffix(line) == after);
}

} // verus!
