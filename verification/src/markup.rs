//! The fixed text of a generated document, piece by piece, and what each
//! piece holds of the paragraph tags.

use vstd::prelude::*;
use vstd::string::*;
use crate::tags::{
    close_tag, closes_cleanly, is_paragraph_tag, lemma_no_tag_end_no_tag, lemma_one_tag,
    occurrences, one_close, one_open, open_tag, opens_cleanly,
};

verus! {

/// The head of the document as a template: `{{lang}}` stands where the
/// language tag goes, `{{title}}` where the title goes.
pub const HTML_TEMPLATE: &'static str =
    "<!DOCTYPE html>\n<html lang=\"{{lang}}\">\n<head>\n\t<meta charset=\"UTF-8\">\n\t<meta http-equiv=\"X-UA-Compatible\" content=\"IE=edge\">\n\t<meta name=\"viewport\" content=\"width=device-width, initial-scale=1.0\">\n\t<title>\n\t\t{{title}}\n\t</title>\n</head>\n<body>\n";

/// Stands in the template for the language tag.
pub const LANG_PLACEHOLDER: &'static str = "{{lang}}";

/// Stands in the template for the title.
pub const TITLE_PLACEHOLDER: &'static str = "{{title}}";

/// The head of the document up to the language tag.
pub const PREAMBLE_START: &'static str = "<!DOCTYPE html>\n<html lang=\"";

/// The head of the document between the language tag and the title.
pub const PREAMBLE_MIDDLE: &'static str =
    "\">\n<head>\n\t<meta charset=\"UTF-8\">\n\t<meta http-equiv=\"X-UA-Compatible\" content=\"IE=edge\">\n\t<meta name=\"viewport\" content=\"width=device-width, initial-scale=1.0\">\n\t<title>\n\t\t";

/// The head of the document behind the title, and the start of the body.
pub const PREAMBLE_END: &'static str = "\n\t</title>\n</head>\n<body>\n";

/// Opens the heading that shows a detected title.
pub const TITLE_HEADING_START: &'static str = "\t<h1>\n\t\t";

/// Closes the title heading and opens the first paragraph.
pub const TITLE_HEADING_END: &'static str = "\t</h1>\n\t<p>\n";

/// Opens the first paragraph of a document without a title.
pub const FIRST_PARAGRAPH: &'static str = "\t<p>\n";

/// Closes a paragraph and opens the next, in plain text.
pub const PARAGRAPH_BREAK: &'static str = "\t</p>\n\t<p>\n";

/// Closes a paragraph and opens the next, in markdown.
pub const MARKDOWN_BREAK: &'static str = "\t</p>\n\t<p>";

/// Stands before each line of paragraph text.
pub const INDENT: &'static str = "\t\t";

/// Opens a markdown heading.
pub const HEADING_START: &'static str = "<h1>\n";

/// Closes a markdown heading.
pub const HEADING_END: &'static str = "</h1>\n";

/// A horizontal rule.
pub const RULE: &'static str = "<hr />\n\n";

/// Closes the last paragraph, the body and the document.
pub const CLOSING: &'static str = "\n\t</p>\n</body>\n</html>\n";

/// An anchor up to its URL.
pub const ANCHOR_START: &'static str = "<a href=\"";

/// An anchor between its URL and its text.
pub const ANCHOR_MIDDLE: &'static str = "\">";

/// An anchor behind its text.
pub const ANCHOR_END: &'static str = "</a>";

/// The three pieces of the preamble are the template, cut at its two
/// placeholders.
pub proof fn lemma_template_pieces()
    ensures
        HTML_TEMPLATE@ == PREAMBLE_START@ + LANG_PLACEHOLDER@ + PREAMBLE_MIDDLE@
            + TITLE_PLACEHOLDER@ + PREAMBLE_END@,
{
    reveal_strlit(
        "<!DOCTYPE html>\n<html lang=\"{{lang}}\">\n<head>\n\t<meta charset=\"UTF-8\">\n\t<meta http-equiv=\"X-UA-Compatible\" content=\"IE=edge\">\n\t<meta name=\"viewport\" content=\"width=device-width, initial-scale=1.0\">\n\t<title>\n\t\t{{title}}\n\t</title>\n</head>\n<body>\n",
    );
    reveal_strlit("{{lang}}");
    reveal_strlit("{{title}}");
    reveal_strlit("<!DOCTYPE html>\n<html lang=\"");
    reveal_strlit(
        "\">\n<head>\n\t<meta charset=\"UTF-8\">\n\t<meta http-equiv=\"X-UA-Compatible\" content=\"IE=edge\">\n\t<meta name=\"viewport\" content=\"width=device-width, initial-scale=1.0\">\n\t<title>\n\t\t",
    );
    reveal_strlit("\n\t</title>\n</head>\n<body>\n");
}

/// `text` holds neither paragraph tag, and no tag can lie across a joint
/// with what stands before or behind it.
pub open spec fn is_inert(text: Seq<char>) -> bool {
    &&& text.len() > 0
    &&& opens_cleanly(text)
    &&& closes_cleanly(text)
    &&& occurrences(text, open_tag()) == 0
    &&& occurrences(text, close_tag()) == 0
}

/// `text` begins and ends so that no tag can lie across a joint with what
/// stands before or behind it.
pub open spec fn is_guarded(text: Seq<char>) -> bool {
    text.len() > 0 && opens_cleanly(text) && closes_cleanly(text)
}

/// No `>` follows a `p` in `text`.
spec fn no_tag_end(text: Seq<char>) -> bool {
    forall|i: int| 0 <= i < text.len() - 1 ==> !(#[trigger] text[i] == 'p' && text[i + 1] == '>')
}

/// A guarded text in which no `>` follows a `p` is inert.
proof fn lemma_inert(text: Seq<char>)
    requires
        no_tag_end(text),
        text.len() > 0,
        opens_cleanly(text),
        closes_cleanly(text),
    ensures
        is_inert(text),
{
    lemma_no_tag_end_no_tag(text, open_tag());
    lemma_no_tag_end_no_tag(text, close_tag());
}

/// The three pieces of the preamble hold no paragraph tag.
pub proof fn lemma_preamble_pieces()
    ensures
        is_inert(PREAMBLE_START@),
        is_inert(PREAMBLE_MIDDLE@),
        is_inert(PREAMBLE_END@),
{
    reveal_strlit("<!DOCTYPE html>\n<html lang=\"");
    reveal_strlit(
        "\">\n<head>\n\t<meta charset=\"UTF-8\">\n\t<meta http-equiv=\"X-UA-Compatible\" content=\"IE=edge\">\n\t<meta name=\"viewport\" content=\"width=device-width, initial-scale=1.0\">\n\t<title>\n\t\t",
    );
    reveal_strlit("\n\t</title>\n</head>\n<body>\n");
    lemma_inert(PREAMBLE_START@);
    lemma_inert(PREAMBLE_MIDDLE@);
    lemma_inert(PREAMBLE_END@);
}

/// The indent, the heading tags, the rule and the start of the title heading
/// hold no paragraph tag.
pub proof fn lemma_line_pieces()
    ensures
        is_inert(INDENT@),
        is_inert(HEADING_START@),
        is_inert(HEADING_END@),
        is_inert(RULE@),
        is_inert(TITLE_HEADING_START@),
{
    reveal_strlit("\t\t");
    reveal_strlit("<h1>\n");
    reveal_strlit("</h1>\n");
    reveal_strlit("<hr />\n\n");
    reveal_strlit("\t<h1>\n\t\t");
    lemma_inert(INDENT@);
    lemma_inert(HEADING_START@);
    lemma_inert(HEADING_END@);
    lemma_inert(RULE@);
    lemma_inert(TITLE_HEADING_START@);
}

/// The three pieces of an anchor hold no paragraph tag.
pub proof fn lemma_anchor_pieces()
    ensures
        is_inert(ANCHOR_START@),
        is_inert(ANCHOR_MIDDLE@),
        is_inert(ANCHOR_END@),
{
    reveal_strlit("<a href=\"");
    reveal_strlit("\">");
    reveal_strlit("</a>");
    lemma_inert(ANCHOR_START@);
    lemma_inert(ANCHOR_MIDDLE@);
    lemma_inert(ANCHOR_END@);
}

/// Each of the two pieces that open the first paragraph holds `<p>` once and
/// `</p>` not at all.
pub proof fn lemma_opening_pieces(tag: Seq<char>)
    requires
        is_paragraph_tag(tag),
    ensures
        is_guarded(FIRST_PARAGRAPH@),
        is_guarded(TITLE_HEADING_END@),
        occurrences(FIRST_PARAGRAPH@, tag) == one_open(tag),
        occurrences(TITLE_HEADING_END@, tag) == one_open(tag),
{
    reveal_strlit("\t<p>\n");
    reveal_strlit("\t</h1>\n\t<p>\n");
    let tab = seq!['\t'];
    let newline = seq!['\n'];
    let heading = seq!['\t', '<', '/', 'h', '1', '>', '\n', '\t'];
    lemma_no_tag_end_no_tag(tab, tag);
    lemma_no_tag_end_no_tag(newline, tag);
    lemma_no_tag_end_no_tag(heading, tag);
    assert(FIRST_PARAGRAPH@ == tab + open_tag() + newline);
    lemma_one_tag(tab, open_tag(), newline, tag);
    assert(TITLE_HEADING_END@ == heading + open_tag() + newline);
    lemma_one_tag(heading, open_tag(), newline, tag);
}

/// Each of the two paragraph breaks holds `</p>` once and `<p>` once.
pub proof fn lemma_break_pieces(tag: Seq<char>)
    requires
        is_paragraph_tag(tag),
    ensures
        is_guarded(PARAGRAPH_BREAK@),
        is_guarded(MARKDOWN_BREAK@),
        occurrences(PARAGRAPH_BREAK@, tag) == 1,
        occurrences(MARKDOWN_BREAK@, tag) == 1,
{
    reveal_strlit("\t</p>\n\t<p>\n");
    reveal_strlit("\t</p>\n\t<p>");
    let tab = seq!['\t'];
    let newline = seq!['\n'];
    let between = seq!['\n', '\t'];
    let none = Seq::<char>::empty();
    lemma_no_tag_end_no_tag(tab, tag);
    lemma_no_tag_end_no_tag(newline, tag);
    lemma_no_tag_end_no_tag(between, tag);
    lemma_no_tag_end_no_tag(none, tag);
    let closed = tab + close_tag() + between;
    lemma_one_tag(tab, close_tag(), between, tag);
    assert(PARAGRAPH_BREAK@ == closed + open_tag() + newline);
    lemma_one_tag(closed, open_tag(), newline, tag);
    assert(MARKDOWN_BREAK@ == closed + open_tag() + none);
    lemma_one_tag(closed, open_tag(), none, tag);
}

/// The closing holds `</p>` once and `<p>` not at all.
pub proof fn lemma_closing(tag: Seq<char>)
    requires
        is_paragraph_tag(tag),
    ensures
        is_guarded(CLOSING@),
        occurrences(CLOSING@, tag) == one_close(tag),
{
    reveal_strlit("\n\t</p>\n</body>\n</html>\n");
    let before = seq!['\n', '\t'];
    let after = seq![
        '\n',
        '<',
        '/',
        'b',
        'o',
        'd',
        'y',
        '>',
        '\n',
        '<',
        '/',
        'h',
        't',
        'm',
        'l',
        '>',
        '\n',
    ];
    lemma_no_tag_end_no_tag(before, tag);
    lemma_no_tag_end_no_tag(after, tag);
    assert(CLOSING@ == before + close_tag() + after);
    lemma_one_tag(before, close_tag(), after, tag);
}

} // verus!
