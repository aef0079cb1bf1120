//! The body converter: from a source document to a standalone HTML document.

use vstd::prelude::*;
use vstd::string::*;
use crate::event::{classify, is_heading, is_rule_line, starts_heading, LineEventView};
use crate::format::Format;
use crate::lines::{find_line_end, is_blank, is_blank_range, lemma_line_end, line_at, line_end};
use crate::link::{append_rendered_link, render_link};
use crate::markup::{
    CLOSING, FIRST_PARAGRAPH, HEADING_END, HEADING_START, INDENT, MARKDOWN_BREAK,
    PARAGRAPH_BREAK, PREAMBLE_END, PREAMBLE_MIDDLE, PREAMBLE_START, RULE, TITLE_HEADING_END,
    TITLE_HEADING_START,
};
use crate::text::{append_range, string_from_chars, to_chars};
use crate::title::{body_start, find_title, lemma_title_lines, title_of};

verus! {

/// The HTML fragment for one line of a document body.
///
/// A blank line closes the paragraph and opens the next; in markdown the
/// line's own terminator follows, indented. A heading and a rule stand
/// outside the paragraph text. Any other line is indented; in markdown its
/// first link is rendered.
pub open spec fn line_html(format: Format, line: Seq<char>) -> Seq<char> {
    match classify(format, line) {
        LineEventView::Blank => match format {
            Format::PlainText => PARAGRAPH_BREAK@,
            Format::Markdown => MARKDOWN_BREAK@ + INDENT@ + line,
        },
        LineEventView::Heading(text) => HEADING_START@ + text + HEADING_END@,
        LineEventView::HorizontalRule => RULE@,
        LineEventView::Text(content) => match format {
            Format::PlainText => INDENT@ + content,
            Format::Markdown => INDENT@ + render_link(content),
        },
    }
}

/// The fragments of the lines of `doc` from index `start` on, in order.
pub open spec fn body_html(format: Format, doc: Seq<char>, start: int) -> Seq<char>
    decreases doc.len() - start,
{
    if 0 <= start < doc.len() {
        proof {
            lemma_line_end(doc, start);
        }
        line_html(format, line_at(doc, start)) + body_html(format, doc, line_end(doc, start))
    } else {
        Seq::empty()
    }
}

/// The head of the document, with the language tag and the title in place.
pub open spec fn preamble(lang: Seq<char>, title: Seq<char>) -> Seq<char> {
    PREAMBLE_START@ + lang + PREAMBLE_MIDDLE@ + title + PREAMBLE_END@
}

/// What opens the body: the title as a heading, if there is one, and the
/// first paragraph.
pub open spec fn opening(title: Option<Seq<char>>) -> Seq<char> {
    match title {
        Some(text) => TITLE_HEADING_START@ + text + TITLE_HEADING_END@,
        None => FIRST_PARAGRAPH@,
    }
}

/// What ends the document: the close of the last paragraph, of the body and
/// of the document.
pub open spec fn closing() -> Seq<char> {
    CLOSING@
}

/// The title element's text: the detected title, or else the file's base
/// name.
pub open spec fn document_title(content: Seq<char>, file_stem: Seq<char>) -> Seq<char> {
    match title_of(content) {
        Some(title) => title,
        None => file_stem,
    }
}

/// What stands before the body: the preamble and the opening.
pub open spec fn document_head(content: Seq<char>, file_stem: Seq<char>, lang: Seq<char>) -> Seq<
    char,
> {
    preamble(lang, document_title(content, file_stem)) + opening(title_of(content))
}

/// The HTML document for `content`: the preamble, the title heading if a
/// title was detected, one paragraph block that holds a fragment for each
/// line behind the title lines, and the closing tags.
pub open spec fn document_html(
    content: Seq<char>,
    format: Format,
    file_stem: Seq<char>,
    lang: Seq<char>,
) -> Seq<char> {
    document_head(content, file_stem, lang) + body_html(format, content, body_start(content))
        + closing()
}

/// Appends the fragment for `line` to `out`.
pub fn append_line_html(out: &mut String, format: Format, line: &[char])
    ensures
        final(out)@ == old(out)@ + line_html(format, line@),
{
    assert(line@.subrange(0, line@.len() as int) == line@);
    if is_blank_range(line, 0, line.len()) {
        match format {
            Format::PlainText => {
                out.append(PARAGRAPH_BREAK);
            },
            Format::Markdown => {
                out.append(MARKDOWN_BREAK);
                out.append(INDENT);
                append_range(out, line, 0, line.len());
            },
        }
        return ;
    }
    match format {
        Format::PlainText => {
            out.append(INDENT);
            append_range(out, line, 0, line.len());
        },
        Format::Markdown => {
            if starts_heading(line) {
                out.append(HEADING_START);
                append_range(out, line, 2, line.len());
                out.append(HEADING_END);
            } else if is_rule_line(line) {
                out.append(RULE);
            } else {
                out.append(INDENT);
                append_rendered_link(out, line);
            }
        },
    }
}

/// The HTML fragment for one line of a document of the given format.
pub fn convert_line(format: Format, line: &str) -> (html: String)
    ensures
        html@ == line_html(format, line@),
{
    let chars = to_chars(line);
    let mut html = String::new();
    append_line_html(&mut html, format, chars.as_slice());
    html
}

/// Whether a paragraph block is open at some point of a document.
#[derive(Clone, Copy, Debug, PartialEq, Eq, Structural)]
pub enum ParagraphState {
    /// A `<p>` has not been closed yet.
    Open,
    /// Every `<p>` has been closed.
    Closed,
}

/// A document in the making. It is begun with its head, which opens the
/// paragraph block; it takes the lines of the body one by one; and it is
/// finished with the closing, which closes the paragraph block.
#[derive(Debug)]
pub struct Converter {
    /// The format of the source.
    pub format: Format,
    /// Whether the paragraph block is open.
    pub paragraph: ParagraphState,
    /// What has been written so far.
    pub html: String,
}

/// The text of an optional string.
pub open spec fn optional_text(text: Option<&str>) -> Option<Seq<char>> {
    match text {
        Some(text) => Some(text@),
        None => None,
    }
}

impl Converter {
    /// Begins a document: writes the preamble and the opening. The title
    /// element holds `title`, or `file_stem` where there is no title.
    pub fn begin(format: Format, title: Option<&str>, file_stem: &str, lang: &str) -> (converter:
        Converter)
        ensures
            converter.format == format,
            converter.paragraph == ParagraphState::Open,
            converter.html@ == preamble(
                lang@,
                match title {
                    Some(text) => text@,
                    None => file_stem@,
                },
            ) + opening(optional_text(title)),
    {
        let mut html = String::new();
        html.append(PREAMBLE_START);
        html.append(lang);
        html.append(PREAMBLE_MIDDLE);
        match title {
            Some(text) => {
                html.append(text);
                html.append(PREAMBLE_END);
                html.append(TITLE_HEADING_START);
                html.append(text);
                html.append(TITLE_HEADING_END);
            },
            None => {
                html.append(file_stem);
                html.append(PREAMBLE_END);
                html.append(FIRST_PARAGRAPH);
            },
        }
        Converter { format, paragraph: ParagraphState::Open, html }
    }

    /// Writes the fragment for one line of the body, given as characters.
    pub fn push_chars(&mut self, line: &[char])
        requires
            old(self).paragraph == ParagraphState::Open,
        ensures
            final(self).format == old(self).format,
            final(self).paragraph == ParagraphState::Open,
            final(self).html@ == old(self).html@ + line_html(old(self).format, line@),
    {
        let format = self.format;
        append_line_html(&mut self.html, format, line);
    }

    /// Writes the fragment for one line of the body.
    pub fn push_line(&mut self, line: &str)
        requires
            old(self).paragraph == ParagraphState::Open,
        ensures
            final(self).format == old(self).format,
            final(self).paragraph == ParagraphState::Open,
            final(self).html@ == old(self).html@ + line_html(old(self).format, line@),
    {
        let chars = to_chars(line);
        self.push_chars(chars.as_slice());
    }

    /// Finishes the document: closes the paragraph block, the body and the
    /// document, and hands the text out.
    pub fn finish(self) -> (html: String)
        requires
            self.paragraph == ParagraphState::Open,
        ensures
            html@ == self.html@ + closing(),
    {
        let mut html = self.html;
        html.append(CLOSING);
        html
    }
}

/// Converts a whole source document into an HTML document. `file_stem`, the
/// file's base name without extension, is the title of a document in which
/// none is detected; `lang` is the language tag of the root element.
pub fn convert_document(content: &str, format: Format, file_stem: &str, lang: &str) -> (html:
    String)
    ensures
        html@ == document_html(content@, format, file_stem@, lang@),
{
    let doc = to_chars(content);
    let found = find_title(doc.as_slice());
    proof {
        lemma_title_lines(doc@);
    }
    let mut start: usize = 0;
    let mut converter = match found {
        Some(span) => {
            let title = string_from_chars(
                vstd::slice::slice_subrange(doc.as_slice(), 0, span.title_end),
            );
            start = span.body_start;
            Converter::begin(format, Some(title.as_str()), file_stem, lang)
        },
        None => Converter::begin(format, None, file_stem, lang),
    };
    let ghost head = converter.html@;
    while start < doc.len()
        invariant
            doc@ == content@,
            body_start(content@) <= start <= doc.len(),
            converter.format == format,
            converter.paragraph == ParagraphState::Open,
            converter.html@ + body_html(format, doc@, start as int) == head + body_html(
                format,
                doc@,
                body_start(content@),
            ),
        decreases doc.len() - start,
    {
        let end = find_line_end(doc.as_slice(), start);
        proof {
            lemma_line_end(doc@, start as int);
        }
        let ghost before = converter.html@;
        converter.push_chars(vstd::slice::slice_subrange(doc.as_slice(), start, end));
        assert(before + line_html(format, line_at(doc@, start as int)) + body_html(
            format,
            doc@,
            end as int,
        ) == before + body_html(format, doc@, start as int));
        start = end;
    }
    converter.finish()
}

/// Empty input: the document for an empty source has the file's base name
/// as its title and one empty paragraph block as its body.
pub proof fn lemma_empty_document(format: Format, file_stem: Seq<char>, lang: Seq<char>)
    ensures
        document_html(Seq::empty(), format, file_stem, lang) == preamble(lang, file_stem)
            + FIRST_PARAGRAPH@ + CLOSING@,
{
    let content = Seq::<char>::empty();
    lemma_title_lines(content);
    assert(preamble(lang, file_stem) + FIRST_PARAGRAPH@ + Seq::<char>::empty() == preamble(
        lang,
        file_stem,
    ) + FIRST_PARAGRAPH@);
}

/// Markdown heading: a line that begins with `# ` becomes a heading element
/// that holds the rest of the line, and nothing of it becomes paragraph
/// text.
pub proof fn lemma_heading_line(text: Seq<char>)
    ensures
        line_html(Format::Markdown, seq!['#', ' '] + text) == HEADING_START@ + text + HEADING_END@,
{
    let line = seq!['#', ' '] + text;
    assert(line[0] == '#' && seq!['\n'][0] == '\n' && seq!['\r', '\n'][0] == '\r');
    assert(!is_blank(line));
    assert(line.subrange(2, line.len() as int) == text);
}

/// Horizontal rule: a line of three hyphens and its terminator becomes a
/// rule element, and nothing of it becomes paragraph text.
pub proof fn lemma_rule_line()
    ensures
        line_html(Format::Markdown, seq!['-', '-', '-', '\n']) == RULE@,
        line_html(Format::Markdown, seq!['-', '-', '-', '\r', '\n']) == RULE@,
{
    let short = seq!['-', '-', '-', '\n'];
    let long = seq!['-', '-', '-', '\r', '\n'];
    assert(short.len() == 4 && long.len() == 5 && short[0] == '-' && long[0] == '-');
    assert(!is_blank(short) && !is_blank(long));
    assert(!is_heading(short) && !is_heading(long));
}

/// In plain text every line that is not blank is paragraph text as it
/// stands, markdown or not.
pub proof fn lemma_plain_text_line(line: Seq<char>)
    requires
        !is_blank(line),
    ensures
        line_html(Format::PlainText, line) == INDENT@ + line,
{
}

} // verus!
