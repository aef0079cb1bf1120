//! Physical lines of a document. A line runs up to and including its `\n`;
//! the last line of a document may lack one.

use vstd::prelude::*;
use crate::text::{find_from, first_index_from, lacks, lemma_first_index_from};

verus! {

/// Index just behind the line that starts at `start`: behind its `\n`, or the
/// end of the document when no `\n` follows.
pub open spec fn line_end(doc: Seq<char>, start: int) -> int {
    let newline = first_index_from(doc, '\n', start);
    if newline < doc.len() {
        newline + 1
    } else {
        doc.len() as int
    }
}

/// The line that starts at `start`, with its terminator. It is empty exactly
/// when `start` is the end of the document.
pub open spec fn line_at(doc: Seq<char>, start: int) -> Seq<char> {
    doc.subrange(start, line_end(doc, start))
}

/// A line that consists of its terminator alone: `\n` or `\r\n`.
pub open spec fn is_blank(line: Seq<char>) -> bool {
    line == seq!['\n'] || line == seq!['\r', '\n']
}

/// A terminated line: it ends in `\n` and holds no other `\n`.
pub open spec fn is_terminated_line(line: Seq<char>) -> bool {
    line.len() > 0 && line.last() == '\n' && lacks(line.drop_last(), '\n')
}

/// The lines of `doc` from index `start` on, in order.
pub open spec fn lines_from(doc: Seq<char>, start: int) -> Seq<Seq<char>>
    decreases doc.len() - start,
{
    if 0 <= start < doc.len() {
        proof {
            lemma_line_end(doc, start);
        }
        seq![line_at(doc, start)] + lines_from(doc, line_end(doc, start))
    } else {
        Seq::empty()
    }
}

/// The lines of `doc`.
pub open spec fn lines(doc: Seq<char>) -> Seq<Seq<char>> {
    lines_from(doc, 0)
}

/// A line ends behind its start, inside the document, and holds no `\n`
/// before its last character.
pub proof fn lemma_line_end(doc: Seq<char>, start: int)
    requires
        0 <= start <= doc.len(),
    ensures
        start <= line_end(doc, start) <= doc.len(),
        start < doc.len() ==> start < line_end(doc, start),
        forall|i: int| start <= i < line_end(doc, start) - 1 ==> doc[i] != '\n',
        line_end(doc, start) < doc.len() ==> doc[line_end(doc, start) - 1] == '\n',
{
    lemma_first_index_from(doc, '\n', start);
}

/// The end of the line that starts at `start`.
pub fn find_line_end(doc: &[char], start: usize) -> (end: usize)
    requires
        start <= doc.len(),
    ensures
        end == line_end(doc@, start as int),
        start <= end <= doc.len(),
{
    let newline = find_from(doc, '\n', start);
    if newline < doc.len() {
        newline + 1
    } else {
        newline
    }
}

/// Whether `doc[start..end]` is a blank line.
pub fn is_blank_range(doc: &[char], start: usize, end: usize) -> (blank: bool)
    requires
        start <= end <= doc.len(),
    ensures
        blank == is_blank(doc@.subrange(start as int, end as int)),
{
    let len = end - start;
    let ghost line = doc@.subrange(start as int, end as int);
    let ghost lf = seq!['\n'];
    let ghost crlf = seq!['\r', '\n'];
    assert(lf.len() == 1 && lf[0] == '\n');
    assert(crlf.len() == 2 && crlf[0] == '\r' && crlf[1] == '\n');
    if len == 1 {
        let blank = doc[start] == '\n';
        assert(blank ==> line =~= lf);
        blank
    } else if len == 2 {
        let blank = doc[start] == '\r' && doc[start + 1] == '\n';
        assert(blank ==> line =~= crlf);
        blank
    } else {
        false
    }
}

} // verus!
