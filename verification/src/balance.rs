//! Paragraph balance: how often the two paragraph tags stand in a generated
//! document.
//!
//! The converter itself writes `<p>` once at the start of the body and once
//! for each blank line, and `</p>` once for each blank line and once at the
//! end. Text that a document carries over from its source (the language
//! tag, the title, the text of its lines) is written as it is, so a tag that
//! is spelled out in the source stands in the document as well.

use vstd::prelude::*;
use crate::convert::{
    body_html, closing, document_head, document_html, document_title, line_html, opening,
    preamble, ParagraphState,
};
use crate::event::{classify, LineEventView};
use crate::format::Format;
use crate::lines::{is_blank, lemma_line_end, line_at, line_end};
use crate::link::{
    bracket_close, bracket_open, has_link, has_url, lemma_link_positions, link_prefix,
    link_suffix, link_tail_start, link_text, link_url, paren_close, paren_open, render_link,
};
use crate::markup::{
    is_guarded, lemma_anchor_pieces, lemma_break_pieces, lemma_closing, lemma_line_pieces,
    lemma_opening_pieces, lemma_preamble_pieces, ANCHOR_END, ANCHOR_MIDDLE, ANCHOR_START, CLOSING,
    HEADING_END, HEADING_START, INDENT, MARKDOWN_BREAK, PREAMBLE_END, PREAMBLE_MIDDLE,
    PREAMBLE_START, TITLE_HEADING_END, TITLE_HEADING_START,
};
use crate::tags::{
    close_tag, closes_cleanly, is_paragraph_tag, lemma_concat_ends, lemma_no_bracket_no_tag,
    lemma_no_tag_end_no_tag, lemma_occurrences_concat, occurrences, one_open, open_tag,
    opens_cleanly,
};
use crate::text::lacks;
use crate::title::{body_start, lemma_title_lines, title_of};

verus! {

/// The number of blank lines among the lines of `doc` from index `start` on.
pub open spec fn blank_lines(doc: Seq<char>, start: int) -> nat
    decreases doc.len() - start,
{
    if 0 <= start < doc.len() {
        proof {
            lemma_line_end(doc, start);
        }
        blank_lines(doc, line_end(doc, start)) + if is_blank(line_at(doc, start)) {
            1nat
        } else {
            0nat
        }
    } else {
        0
    }
}

/// How often `tag` stands in the text that the fragment for `line` carries
/// over from the line: the text of a heading, the content of a text line, in
/// markdown with its link rendered.
pub open spec fn carried_by_line(format: Format, line: Seq<char>, tag: Seq<char>) -> nat {
    match classify(format, line) {
        LineEventView::Blank => 0,
        LineEventView::Heading(text) => occurrences(text, tag),
        LineEventView::HorizontalRule => 0,
        LineEventView::Text(content) => match format {
            Format::PlainText => occurrences(content, tag),
            Format::Markdown => occurrences(render_link(content), tag),
        },
    }
}

/// How often `tag` stands in the text that the body carries over from the
/// lines of `doc` from index `start` on.
pub open spec fn carried_by_body(format: Format, doc: Seq<char>, start: int, tag: Seq<char>) -> nat
    decreases doc.len() - start,
{
    if 0 <= start < doc.len() {
        proof {
            lemma_line_end(doc, start);
        }
        carried_by_line(format, line_at(doc, start), tag) + carried_by_body(
            format,
            doc,
            line_end(doc, start),
            tag,
        )
    } else {
        0
    }
}

/// How often `tag` stands in the text that the document carries over from
/// its source: in the language tag, in the title element, in the title
/// heading, and in the body.
pub open spec fn carried(
    content: Seq<char>,
    format: Format,
    file_stem: Seq<char>,
    lang: Seq<char>,
    tag: Seq<char>,
) -> nat {
    carried_by_head(content, file_stem, lang, tag) + carried_by_body(
        format,
        content,
        body_start(content),
        tag,
    )
}

/// A piece of fixed text around a carried text adds what it holds itself.
proof fn lemma_wrapped(before: Seq<char>, inner: Seq<char>, after: Seq<char>, tag: Seq<char>)
    requires
        is_paragraph_tag(tag),
        is_guarded(before),
        is_guarded(after),
    ensures
        occurrences(before + inner + after, tag) == occurrences(before, tag) + occurrences(
            inner,
            tag,
        ) + occurrences(after, tag),
        is_guarded(before + inner + after),
{
    lemma_occurrences_concat(before, inner, tag);
    lemma_occurrences_concat(before + inner, after, tag);
    lemma_concat_ends(before, inner);
    lemma_concat_ends(before + inner, after);
}

/// A fixed piece before a carried text adds what it holds itself.
proof fn lemma_prefixed(before: Seq<char>, inner: Seq<char>, tag: Seq<char>)
    requires
        is_paragraph_tag(tag),
        is_guarded(before),
    ensures
        occurrences(before + inner, tag) == occurrences(before, tag) + occurrences(inner, tag),
        (before + inner).len() > 0,
        opens_cleanly(before + inner),
{
    lemma_occurrences_concat(before, inner, tag);
    lemma_concat_ends(before, inner);
}

/// The tags of a rendered line are those of the four parts that it keeps of
/// the line: what stands before the link, the URL, the text, and what stands
/// behind the link.
pub proof fn lemma_rendered_link_tags(line: Seq<char>, tag: Seq<char>)
    requires
        is_paragraph_tag(tag),
        has_link(line),
    ensures
        occurrences(render_link(line), tag) == occurrences(link_prefix(line), tag) + occurrences(
            link_url(line),
            tag,
        ) + occurrences(link_text(line), tag) + occurrences(link_suffix(line), tag),
{
    lemma_anchor_pieces();
    let prefix = link_prefix(line);
    let url = link_url(line);
    let text = link_text(line);
    let suffix = link_suffix(line);
    lemma_wrapped(ANCHOR_START@, url, ANCHOR_MIDDLE@, tag);
    let first = ANCHOR_START@ + url + ANCHOR_MIDDLE@;
    lemma_wrapped(first, text, ANCHOR_END@, tag);
    let whole = first + text + ANCHOR_END@;
    lemma_occurrences_concat(prefix, whole, tag);
    lemma_occurrences_concat(prefix + whole, suffix, tag);
    lemma_concat_ends(prefix, whole);
}

/// The tags of the fragment for one line: a break for a blank line, and what
/// the line carries over.
pub proof fn lemma_line_tags(format: Format, line: Seq<char>, tag: Seq<char>)
    requires
        is_paragraph_tag(tag),
    ensures
        occurrences(line_html(format, line), tag) == carried_by_line(format, line, tag) + if is_blank(
            line,
        ) {
            1nat
        } else {
            0nat
        },
        line_html(format, line).len() > 0,
        opens_cleanly(line_html(format, line)),
{
    lemma_line_pieces();
    lemma_break_pieces(tag);
    match classify(format, line) {
        LineEventView::Blank => {
            match format {
                Format::PlainText => {},
                Format::Markdown => {
                    lemma_no_tag_end_no_tag(line, tag);
                    lemma_wrapped(MARKDOWN_BREAK@, Seq::empty(), INDENT@, tag);
                    lemma_no_tag_end_no_tag(Seq::empty(), tag);
                    assert(MARKDOWN_BREAK@ + Seq::<char>::empty() + INDENT@ == MARKDOWN_BREAK@
                        + INDENT@);
                    lemma_prefixed(MARKDOWN_BREAK@ + INDENT@, line, tag);
                },
            }
        },
        LineEventView::Heading(text) => {
            lemma_wrapped(HEADING_START@, text, HEADING_END@, tag);
        },
        LineEventView::HorizontalRule => {},
        LineEventView::Text(content) => {
            match format {
                Format::PlainText => {
                    lemma_prefixed(INDENT@, content, tag);
                },
                Format::Markdown => {
                    lemma_prefixed(INDENT@, render_link(content), tag);
                },
            }
        },
    }
}

/// The tags of the body: one break for each blank line, and what the lines
/// carry over.
pub proof fn lemma_body_tags(format: Format, doc: Seq<char>, start: int, tag: Seq<char>)
    requires
        is_paragraph_tag(tag),
        0 <= start <= doc.len(),
    ensures
        occurrences(body_html(format, doc, start), tag) == blank_lines(doc, start)
            + carried_by_body(format, doc, start, tag),
        opens_cleanly(body_html(format, doc, start)),
    decreases doc.len() - start,
{
    if start < doc.len() {
        lemma_line_end(doc, start);
        let next = line_end(doc, start);
        lemma_body_tags(format, doc, next, tag);
        lemma_line_tags(format, line_at(doc, start), tag);
        let head = line_html(format, line_at(doc, start));
        let rest = body_html(format, doc, next);
        lemma_occurrences_concat(head, rest, tag);
        lemma_concat_ends(head, rest);
    }
}

/// How often `tag` stands in the text that the head of the document
/// carries over: in the language tag, in the title element and in the title
/// heading.
pub open spec fn carried_by_head(
    content: Seq<char>,
    file_stem: Seq<char>,
    lang: Seq<char>,
    tag: Seq<char>,
) -> nat {
    occurrences(lang, tag) + occurrences(document_title(content, file_stem), tag) + match title_of(
        content,
    ) {
        Some(title) => occurrences(title, tag),
        None => 0,
    }
}

/// The tags of the head of the document: the `<p>` that opens the paragraph
/// block, and what the head carries over.
pub proof fn lemma_head_tags(
    content: Seq<char>,
    file_stem: Seq<char>,
    lang: Seq<char>,
    tag: Seq<char>,
)
    requires
        is_paragraph_tag(tag),
    ensures
        occurrences(document_head(content, file_stem, lang), tag) == one_open(tag)
            + carried_by_head(content, file_stem, lang, tag),
        closes_cleanly(document_head(content, file_stem, lang)),
{
    lemma_preamble_pieces();
    lemma_line_pieces();
    lemma_opening_pieces(tag);
    let title = document_title(content, file_stem);
    lemma_wrapped(PREAMBLE_START@, lang, PREAMBLE_MIDDLE@, tag);
    let upper = PREAMBLE_START@ + lang + PREAMBLE_MIDDLE@;
    lemma_wrapped(upper, title, PREAMBLE_END@, tag);
    let head = preamble(lang, title);
    let first = opening(title_of(content));
    match title_of(content) {
        Some(text) => {
            lemma_wrapped(TITLE_HEADING_START@, text, TITLE_HEADING_END@, tag);
        },
        None => {},
    }
    lemma_occurrences_concat(head, first, tag);
    lemma_concat_ends(head, first);
}

/// Every generated document holds each paragraph tag once for its one
/// paragraph block, once more for each blank line of its body, and as often
/// as the text that it carries over from its source holds it.
pub proof fn lemma_document_tags(
    content: Seq<char>,
    format: Format,
    file_stem: Seq<char>,
    lang: Seq<char>,
    tag: Seq<char>,
)
    requires
        is_paragraph_tag(tag),
    ensures
        occurrences(document_html(content, format, file_stem, lang), tag) == 1 + blank_lines(
            content,
            body_start(content),
        ) + carried(content, format, file_stem, lang, tag),
{
    lemma_closing(tag);
    lemma_title_lines(content);
    let head = document_head(content, file_stem, lang);
    lemma_head_tags(content, file_stem, lang, tag);
    let body = body_html(format, content, body_start(content));
    lemma_body_tags(format, content, body_start(content), tag);
    lemma_occurrences_concat(head, body, tag);
    lemma_occurrences_concat(head + body, CLOSING@, tag);
}

/// Paragraph balance: a generated document holds `<p>` as often as `</p>`
/// exactly when the text that it carries over from its source does.
pub proof fn lemma_paragraph_balance(
    content: Seq<char>,
    format: Format,
    file_stem: Seq<char>,
    lang: Seq<char>,
)
    ensures
        occurrences(document_html(content, format, file_stem, lang), open_tag()) == occurrences(
            document_html(content, format, file_stem, lang),
            close_tag(),
        ) <==> carried(content, format, file_stem, lang, open_tag()) == carried(
            content,
            format,
            file_stem,
            lang,
            close_tag(),
        ),
{
    lemma_document_tags(content, format, file_stem, lang, open_tag());
    lemma_document_tags(content, format, file_stem, lang, close_tag());
}

/// Paragraph balance: a generated document whose carried text holds `<p>`
/// as often as `</p>` holds `<p>` as often as `</p>`.
pub proof fn lemma_paragraphs_balanced(
    content: Seq<char>,
    format: Format,
    file_stem: Seq<char>,
    lang: Seq<char>,
)
    requires
        carried(content, format, file_stem, lang, open_tag()) == carried(
            content,
            format,
            file_stem,
            lang,
            close_tag(),
        ),
    ensures
        occurrences(document_html(content, format, file_stem, lang), open_tag()) == occurrences(
            document_html(content, format, file_stem, lang),
            close_tag(),
        ),
{
    lemma_paragraph_balance(content, format, file_stem, lang);
}

/// A part of a text without `c` is without `c`.
proof fn lemma_subrange_lacks(text: Seq<char>, from: int, to: int, c: char)
    requires
        lacks(text, c),
        0 <= from <= to <= text.len(),
    ensures
        lacks(text.subrange(from, to), c),
{
    assert forall|i: int| 0 <= i < to - from implies text.subrange(from, to)[i] != c by {
        assert(text.subrange(from, to)[i] == text[from + i]);
    }
}

/// A line without `<` carries no paragraph tag over.
proof fn lemma_plain_line_carries_none(format: Format, line: Seq<char>, tag: Seq<char>)
    requires
        is_paragraph_tag(tag),
        lacks(line, '<'),
    ensures
        carried_by_line(format, line, tag) == 0,
{
    lemma_no_bracket_no_tag(line, tag);
    if line.len() >= 2 {
        lemma_subrange_lacks(line, 2, line.len() as int, '<');
        lemma_no_bracket_no_tag(line.subrange(2, line.len() as int), tag);
    }
    if has_link(line) {
        lemma_link_positions(line);
        lemma_rendered_link_tags(line, tag);
        lemma_subrange_lacks(line, 0, bracket_open(line), '<');
        lemma_subrange_lacks(
            line,
            bracket_open(line) + 1,
            bracket_close(line),
            '<',
        );
        lemma_subrange_lacks(line, link_tail_start(line), line.len() as int, '<');
        if has_url(line) {
            lemma_subrange_lacks(
                line,
                paren_open(line) + 1,
                paren_close(line),
                '<',
            );
        }
        lemma_no_bracket_no_tag(link_prefix(line), tag);
        lemma_no_bracket_no_tag(link_url(line), tag);
        lemma_no_bracket_no_tag(link_text(line), tag);
        lemma_no_bracket_no_tag(link_suffix(line), tag);
    }
}

/// A body without `<` carries no paragraph tag over.
proof fn lemma_plain_body_carries_none(format: Format, doc: Seq<char>, start: int, tag: Seq<char>)
    requires
        is_paragraph_tag(tag),
        lacks(doc, '<'),
        0 <= start <= doc.len(),
    ensures
        carried_by_body(format, doc, start, tag) == 0,
    decreases doc.len() - start,
{
    if start < doc.len() {
        lemma_line_end(doc, start);
        lemma_subrange_lacks(doc, start, line_end(doc, start), '<');
        lemma_plain_line_carries_none(format, line_at(doc, start), tag);
        lemma_plain_body_carries_none(format, doc, line_end(doc, start), tag);
    }
}

/// A source without `<` carries no paragraph tag over.
proof fn lemma_plain_source_carries_none(
    content: Seq<char>,
    format: Format,
    file_stem: Seq<char>,
    lang: Seq<char>,
    tag: Seq<char>,
)
    requires
        is_paragraph_tag(tag),
        lacks(content, '<'),
        lacks(file_stem, '<'),
        lacks(lang, '<'),
    ensures
        carried(content, format, file_stem, lang, tag) == 0,
{
    lemma_title_lines(content);
    lemma_line_end(content, 0);
    lemma_subrange_lacks(content, 0, line_end(content, 0), '<');
    lemma_no_bracket_no_tag(lang, tag);
    lemma_no_bracket_no_tag(file_stem, tag);
    lemma_no_bracket_no_tag(line_at(content, 0), tag);
    lemma_plain_body_carries_none(format, content, body_start(content), tag);
}

/// A document whose source spells no tag is balanced: where the content, the
/// file's base name and the language tag hold no `<`, the document holds
/// `<p>` and `</p>` equally often, once and once more for each blank line of
/// its body.
pub proof fn lemma_plain_source_is_balanced(
    content: Seq<char>,
    format: Format,
    file_stem: Seq<char>,
    lang: Seq<char>,
)
    requires
        lacks(content, '<'),
        lacks(file_stem, '<'),
        lacks(lang, '<'),
    ensures
        occurrences(document_html(content, format, file_stem, lang), open_tag()) == 1
            + blank_lines(content, body_start(content)),
        occurrences(document_html(content, format, file_stem, lang), close_tag()) == 1
            + blank_lines(content, body_start(content)),
{
    lemma_plain_source_carries_none(content, format, file_stem, lang, open_tag());
    lemma_plain_source_carries_none(content, format, file_stem, lang, close_tag());
    lemma_document_tags(content, format, file_stem, lang, open_tag());
    lemma_document_tags(content, format, file_stem, lang, close_tag());
}

/// The paragraph state at the end of `html`: open when it holds more `<p>`
/// than `</p>`.
pub open spec fn paragraph_state(html: Seq<char>) -> ParagraphState {
    if occurrences(html, open_tag()) > occurrences(html, close_tag()) {
        ParagraphState::Open
    } else {
        ParagraphState::Closed
    }
}

/// The life of the paragraph block in a document whose source spells no tag:
/// it is open where the body begins, each line leaves it open (a blank line
/// closes it and opens the next), and the closing closes it.
pub proof fn lemma_paragraph_lifecycle(
    content: Seq<char>,
    format: Format,
    file_stem: Seq<char>,
    lang: Seq<char>,
    line: Seq<char>,
)
    requires
        lacks(content, '<'),
        lacks(file_stem, '<'),
        lacks(lang, '<'),
        lacks(line, '<'),
    ensures
        paragraph_state(document_head(content, file_stem, lang)) == ParagraphState::Open,
        occurrences(line_html(format, line), open_tag()) == occurrences(
            line_html(format, line),
            close_tag(),
        ),
        paragraph_state(
            document_head(content, file_stem, lang) + body_html(
                format,
                content,
                body_start(content),
            ),
        ) == ParagraphState::Open,
        paragraph_state(document_html(content, format, file_stem, lang)) == ParagraphState::Closed,
{
    let head = document_head(content, file_stem, lang);
    let body = body_html(format, content, body_start(content));
    lemma_title_lines(content);
    lemma_plain_source_carries_none(content, format, file_stem, lang, open_tag());
    lemma_plain_source_carries_none(content, format, file_stem, lang, close_tag());
    lemma_head_tags(content, file_stem, lang, open_tag());
    lemma_head_tags(content, file_stem, lang, close_tag());
    lemma_body_tags(format, content, body_start(content), open_tag());
    lemma_body_tags(format, content, body_start(content), close_tag());
    lemma_occurrences_concat(head, body, open_tag());
    lemma_occurrences_concat(head, body, close_tag());
    lemma_plain_source_is_balanced(content, format, file_stem, lang);
    lemma_plain_line_carries_none(format, line, open_tag());
    lemma_plain_line_carries_none(format, line, close_tag());
    lemma_line_tags(format, line, open_tag());
    lemma_line_tags(format, line, close_tag());
}

} // verus!
