//! The title scanner. A document has a title when its first line is not
//! blank and its second and third lines are.

use vstd::prelude::*;
use vstd::string::*;
use vstd::utf8::encode_utf8;
use crate::lines::{
    find_line_end, is_blank, is_blank_range, is_terminated_line, lemma_line_end, line_at,
    line_end, lines, lines_from,
};
use crate::text::{
    byte_len, lemma_encode_concat, lemma_first_index_from_unique, string_from_chars,
    to_chars,
};

verus! {

/// The outcome of title detection.
#[derive(Clone, Debug)]
pub struct TitleResult {
    /// The first line with its terminator, when the document has a title.
    pub title: Option<String>,
    /// The number of bytes that the three title lines take, or 0.
    pub skip_bytes: u64,
}

/// Where a detected title ends and the body begins, as character indices.
#[derive(Clone, Copy, Debug, PartialEq, Eq)]
pub struct TitleSpan {
    /// Index behind the first line.
    pub title_end: usize,
    /// Index behind the third line.
    pub body_start: usize,
}

/// Index behind the first line.
pub open spec fn first_line_end(doc: Seq<char>) -> int {
    line_end(doc, 0)
}

/// Index behind the second line.
pub open spec fn second_line_end(doc: Seq<char>) -> int {
    line_end(doc, first_line_end(doc))
}

/// Index behind the third line.
pub open spec fn third_line_end(doc: Seq<char>) -> int {
    line_end(doc, second_line_end(doc))
}

/// The first line is neither empty nor blank, and the second and the third
/// line are blank.
pub open spec fn has_title(doc: Seq<char>) -> bool {
    let first = line_at(doc, 0);
    let second = line_at(doc, first_line_end(doc));
    let third = line_at(doc, second_line_end(doc));
    first.len() > 0 && !is_blank(first) && is_blank(second) && is_blank(third)
}

/// The title of `doc`: its first line, terminator included.
pub open spec fn title_of(doc: Seq<char>) -> Option<Seq<char>> {
    if has_title(doc) {
        Some(line_at(doc, 0))
    } else {
        None
    }
}

/// Index of the first character of the body: behind the three title lines,
/// or 0 when there is no title.
pub open spec fn body_start(doc: Seq<char>) -> int {
    if has_title(doc) {
        third_line_end(doc)
    } else {
        0
    }
}

/// The number of bytes to skip before the body: the UTF-8 length of the
/// three title lines, or 0 when there is no title.
pub open spec fn skip_bytes(doc: Seq<char>) -> nat {
    byte_len(doc.subrange(0, body_start(doc)))
}

/// The three line ends are ordered and lie inside the document.
pub proof fn lemma_title_lines(doc: Seq<char>)
    ensures
        0 <= first_line_end(doc) <= second_line_end(doc) <= third_line_end(doc) <= doc.len(),
        0 <= body_start(doc) <= doc.len(),
{
    lemma_line_end(doc, 0);
    lemma_line_end(doc, first_line_end(doc));
    lemma_line_end(doc, second_line_end(doc));
}

/// Detects the title of `doc` and says where its lines end.
pub fn find_title(doc: &[char]) -> (span: Option<TitleSpan>)
    ensures
        span is Some <==> has_title(doc@),
        span matches Some(found) ==> found.title_end == first_line_end(doc@) && found.body_start
            == third_line_end(doc@),
{
    let first_end = find_line_end(doc, 0);
    let second_end = find_line_end(doc, first_end);
    let third_end = find_line_end(doc, second_end);
    if first_end > 0 && !is_blank_range(doc, 0, first_end) && is_blank_range(
        doc,
        first_end,
        second_end,
    ) && is_blank_range(doc, second_end, third_end) {
        Some(TitleSpan { title_end: first_end, body_start: third_end })
    } else {
        None
    }
}

/// Reads the first three lines of `content`. When they form a title, returns
/// the first line as the title and the byte length of the three lines as the
/// skip offset; otherwise returns no title and a skip offset of 0.
pub fn parse_title(content: &str) -> (result: TitleResult)
    ensures
        result.title is Some <==> has_title(content@),
        result.title matches Some(title) ==> title_of(content@) == Some(title@),
        result.skip_bytes == skip_bytes(content@),
{
    let doc = to_chars(content);
    proof {
        lemma_title_lines(content@);
    }
    match find_title(doc.as_slice()) {
        Some(span) => {
            let title = string_from_chars(vstd::slice::slice_subrange(
                doc.as_slice(),
                0,
                span.title_end,
            ));
            let skipped = content.substring_char(0, span.body_start);
            let skip = skipped.as_bytes().len();
            TitleResult { title: Some(title), skip_bytes: skip as u64 }
        },
        None => {
            TitleResult { title: None, skip_bytes: 0 }
        },
    }
}

/// In `head + rest`, where `head` is a terminated line, the line that starts
/// where `head` starts is `head`.
proof fn lemma_line_end_of_terminated(before: Seq<char>, head: Seq<char>, rest: Seq<char>)
    requires
        is_terminated_line(head),
    ensures
        line_end(before + head + rest, before.len() as int) == before.len() + head.len(),
        line_at(before + head + rest, before.len() as int) == head,
{
    let doc = before + head + rest;
    let start = before.len() as int;
    let newline = start + head.len() - 1;
    assert forall|i: int| start <= i < newline implies doc[i] != '\n' by {
        assert(doc[i] == head.drop_last()[i - start]);
    }
    lemma_first_index_from_unique(doc, '\n', start, newline);
}

/// Title detection: a document that begins with a line that is not blank,
/// followed by two blank lines, has that first line, terminator included, as
/// its title, and its skip offset is the byte length of those three lines.
pub proof fn lemma_title_detected(
    first: Seq<char>,
    second: Seq<char>,
    third: Seq<char>,
    rest: Seq<char>,
)
    requires
        is_terminated_line(first),
        !is_blank(first),
        is_blank(second),
        is_blank(third),
    ensures
        has_title(first + second + third + rest),
        title_of(first + second + third + rest) == Some(first),
        body_start(first + second + third + rest) == first.len() + second.len() + third.len(),
        skip_bytes(first + second + third + rest) == byte_len(first) + byte_len(second)
            + byte_len(third),
{
    let doc = first + second + third + rest;
    let none = Seq::<char>::empty();
    assert(seq!['\r', '\n'].len() == 2 && seq!['\r', '\n'][0] == '\r' && seq!['\r', '\n'][1]
        == '\n');
    assert(none + first + (second + third + rest) == doc);
    lemma_line_end_of_terminated(none, first, second + third + rest);
    assert(first + second + (third + rest) == doc);
    lemma_line_end_of_terminated(first, second, third + rest);
    lemma_line_end_of_terminated(first + second, third, rest);
    assert(doc.subrange(0, (first.len() + second.len() + third.len()) as int) == first + second
        + third);
    lemma_encode_concat(first, second);
    lemma_encode_concat(first + second, third);
}

/// No title, no skip: a document without the title pattern has no title and
/// a skip offset of 0.
pub proof fn lemma_no_title_no_skip(doc: Seq<char>)
    requires
        !has_title(doc),
    ensures
        title_of(doc) is None,
        body_start(doc) == 0,
        skip_bytes(doc) == 0,
{
}

/// A document whose first line is blank has no title.
pub proof fn lemma_blank_first_line_has_no_title(doc: Seq<char>)
    requires
        is_blank(line_at(doc, 0)),
    ensures
        !has_title(doc),
        title_of(doc) is None,
        skip_bytes(doc) == 0,
{
    lemma_no_title_no_skip(doc);
}

/// A document of fewer than three lines has no title.
pub proof fn lemma_short_document_has_no_title(doc: Seq<char>)
    requires
        lines(doc).len() < 3,
    ensures
        !has_title(doc),
        title_of(doc) is None,
        skip_bytes(doc) == 0,
{
    if has_title(doc) {
        lemma_title_lines(doc);
        let first_end = first_line_end(doc);
        let second_end = second_line_end(doc);
        assert(line_at(doc, second_end).len() > 0);
        assert(lines_from(doc, second_end).len() >= 1);
        assert(lines_from(doc, first_end).len() >= 2);
    }
    lemma_no_title_no_skip(doc);
}

/// The skip offset leads to the body: the bytes of the document behind the
/// first `skip_bytes` are the bytes of its text from `body_start` on.
pub proof fn lemma_skip_reaches_body(doc: Seq<char>)
    ensures
        skip_bytes(doc) <= byte_len(doc),
        encode_utf8(doc).subrange(skip_bytes(doc) as int, byte_len(doc) as int) == encode_utf8(
            doc.subrange(body_start(doc), doc.len() as int),
        ),
{
    lemma_title_lines(doc);
    let skipped = doc.subrange(0, body_start(doc));
    let body = doc.subrange(body_start(doc), doc.len() as int);
    assert(doc == skipped + body);
    lemma_encode_concat(skipped, body);
    assert((encode_utf8(skipped) + encode_utf8(body)).subrange(
        encode_utf8(skipped).len() as int,
        (encode_utf8(skipped).len() + encode_utf8(body).len()) as int,
    ) == encode_utf8(body));
}

} // verus!
