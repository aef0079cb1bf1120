//! Classification of the physical lines of a document body.

use vstd::prelude::*;
use vstd::string::*;
use crate::format::Format;
use crate::lines::{is_blank, is_blank_range};
use crate::text::{string_from_chars, to_chars};

verus! {

/// What one physical line of a document body is.
#[derive(Clone, Debug)]
pub enum LineEvent {
    /// A line that holds its terminator alone.
    Blank,
    /// A markdown level-1 heading, with the text behind the marker.
    Heading(String),
    /// A markdown horizontal rule.
    HorizontalRule,
    /// Any other line, with its content.
    Text(String),
}

/// The mathematical value of a `LineEvent`.
pub enum LineEventView {
    /// A line that holds its terminator alone.
    Blank,
    /// A markdown level-1 heading, with the text behind the marker.
    Heading(Seq<char>),
    /// A markdown horizontal rule.
    HorizontalRule,
    /// Any other line, with its content.
    Text(Seq<char>),
}

impl View for LineEvent {
    type V = LineEventView;

    open spec fn view(&self) -> LineEventView {
        match self {
            LineEvent::Blank => LineEventView::Blank,
            LineEvent::Heading(text) => LineEventView::Heading(text@),
            LineEvent::HorizontalRule => LineEventView::HorizontalRule,
            LineEvent::Text(content) => LineEventView::Text(content@),
        }
    }
}

/// The line begins with the level-1 heading marker, `# `.
pub open spec fn is_heading(line: Seq<char>) -> bool {
    line.len() >= 2 && line[0] == '#' && line[1] == ' '
}

/// The line is three hyphens and a terminator, nothing else.
pub open spec fn is_rule(line: Seq<char>) -> bool {
    line == seq!['-', '-', '-', '\n'] || line == seq!['-', '-', '-', '\r', '\n']
}

/// The event that `line` is in a document of the given format. Plain text
/// knows blank lines and text; markdown knows headings and rules as well.
pub open spec fn classify(format: Format, line: Seq<char>) -> LineEventView {
    if is_blank(line) {
        LineEventView::Blank
    } else {
        match format {
            Format::PlainText => LineEventView::Text(line),
            Format::Markdown => if is_heading(line) {
                LineEventView::Heading(line.subrange(2, line.len() as int))
            } else if is_rule(line) {
                LineEventView::HorizontalRule
            } else {
                LineEventView::Text(line)
            },
        }
    }
}

/// Whether `line` begins with the heading marker.
pub fn starts_heading(line: &[char]) -> (heading: bool)
    ensures
        heading == is_heading(line@),
{
    line.len() >= 2 && line[0] == '#' && line[1] == ' '
}

/// Whether `line` is a horizontal rule.
pub fn is_rule_line(line: &[char]) -> (rule: bool)
    ensures
        rule == is_rule(line@),
{
    let ghost short = seq!['-', '-', '-', '\n'];
    let ghost long = seq!['-', '-', '-', '\r', '\n'];
    assert(short.len() == 4 && short[0] == '-' && short[1] == '-' && short[2] == '-' && short[3]
        == '\n');
    assert(long.len() == 5 && long[0] == '-' && long[1] == '-' && long[2] == '-' && long[3] == '\r'
        && long[4] == '\n');
    if line.len() == 4 {
        let rule = line[0] == '-' && line[1] == '-' && line[2] == '-' && line[3] == '\n';
        assert(rule ==> line@ =~= short);
        rule
    } else if line.len() == 5 {
        let rule = line[0] == '-' && line[1] == '-' && line[2] == '-' && line[3] == '\r' && line[4]
            == '\n';
        assert(rule ==> line@ =~= long);
        rule
    } else {
        false
    }
}

/// Classifies the characters of one line.
pub fn classify_chars(format: Format, line: &[char]) -> (event: LineEvent)
    ensures
        event@ == classify(format, line@),
{
    assert(line@.subrange(0, line@.len() as int) == line@);
    if is_blank_range(line, 0, line.len()) {
        return LineEvent::Blank;
    }
    match format {
        Format::PlainText => LineEvent::Text(string_from_chars(line)),
        Format::Markdown => {
            if starts_heading(line) {
                LineEvent::Heading(
                    string_from_chars(vstd::slice::slice_subrange(line, 2, line.len())),
                )
            } else if is_rule_line(line) {
                LineEvent::HorizontalRule
            } else {
                LineEvent::Text(string_from_chars(line))
            }
        },
    }
}

/// Classifies one line of a document of the given format.
pub fn classify_line(format: Format, line: &str) -> (event: LineEvent)
    ensures
        event@ == classify(format, line@),
{
    let chars = to_chars(line);
    classify_chars(format, chars.as_slice())
}

} // verus!
