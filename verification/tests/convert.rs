use txt2html::convert::{convert_document, convert_line, Converter, ParagraphState};
use txt2html::event::{classify_line, LineEvent};
use txt2html::format::Format;
use txt2html::markup::HTML_TEMPLATE;

fn head(lang: &str, title: &str) -> String {
    HTML_TEMPLATE.replace("{{lang}}", lang).replace("{{title}}", title)
}

fn count(text: &str, tag: &str) -> usize {
    text.matches(tag).count()
}

#[test]
fn creates_html_file() {
    let converted_string = convert_document("test\n", Format::PlainText, "html_template_test", "en");
    let expected_output = HTML_TEMPLATE
        .replace("{{title}}", "html_template_test")
        .replace("{{lang}}", "en")
        + "\t<p>\n\t\ttest\n\n\t</p>\n</body>\n</html>\n";
    assert_eq!(converted_string, expected_output);
}

#[test]
fn creates_html_in_directory() {
    let converted_string1 =
        convert_document("test1\n", Format::PlainText, "html_template_test1", "en");
    let converted_string2 =
        convert_document("test2\n", Format::PlainText, "html_template_test2", "en");
    let expected_output1 = HTML_TEMPLATE
        .replace("{{title}}", "html_template_test1")
        .replace("{{lang}}", "en")
        + "\t<p>\n\t\ttest1\n\n\t</p>\n</body>\n</html>\n";
    let expected_output2 = HTML_TEMPLATE
        .replace("{{title}}", "html_template_test2")
        .replace("{{lang}}", "en")
        + "\t<p>\n\t\ttest2\n\n\t</p>\n</body>\n</html>\n";
    assert_eq!(converted_string1, expected_output1);
    assert_eq!(converted_string2, expected_output2);
}

#[test]
fn empty_input_gives_one_empty_paragraph() {
    let html = convert_document("", Format::PlainText, "empty", "en-CA");
    let expected = String::from("<!DOCTYPE html>\n<html lang=\"en-CA\">\n<head>\n\t<meta charset=\"UTF-8\">\n\t<meta http-equiv=\"X-UA-Compatible\" content=\"IE=edge\">\n\t<meta name=\"viewport\" content=\"width=device-width, initial-scale=1.0\">\n\t<title>\n\t\tempty\n\t</title>\n</head>\n<body>\n\t<p>\n\n\t</p>\n</body>\n</html>\n");
    assert_eq!(html, expected);
    assert_eq!(count(&html, "<p>"), 1);
    assert_eq!(count(&html, "</p>"), 1);
}

#[test]
fn detected_title_becomes_title_element_and_heading() {
    let html = convert_document("Title\n\n\nbody\n", Format::PlainText, "stem", "en");
    let expected = head("en", "Title\n")
        + "\t<h1>\n\t\tTitle\n\t</h1>\n\t<p>\n\t\tbody\n\n\t</p>\n</body>\n</html>\n";
    assert_eq!(html, expected);
    assert_eq!(count(&html, "Title"), 2);
}

#[test]
fn title_lines_alone_give_an_empty_paragraph() {
    let html = convert_document("Title\n\n\n", Format::Markdown, "stem", "en");
    let expected =
        head("en", "Title\n") + "\t<h1>\n\t\tTitle\n\t</h1>\n\t<p>\n\n\t</p>\n</body>\n</html>\n";
    assert_eq!(html, expected);
}

#[test]
fn without_title_nothing_is_skipped() {
    let html = convert_document("a\n\nb\n", Format::PlainText, "stem", "fr");
    let expected =
        head("fr", "stem") + "\t<p>\n\t\ta\n\t</p>\n\t<p>\n\t\tb\n\n\t</p>\n</body>\n</html>\n";
    assert_eq!(html, expected);
}

#[test]
fn last_line_may_lack_a_terminator() {
    let html = convert_document("a\nb", Format::PlainText, "stem", "en");
    let expected = head("en", "stem") + "\t<p>\n\t\ta\n\t\tb\n\t</p>\n</body>\n</html>\n";
    assert_eq!(html, expected);
}

#[test]
fn markdown_document() {
    let content = "Doc\n\n\n# Part\nsee [here](x.html) now\n\n---\nlast [one]\n";
    let html = convert_document(content, Format::Markdown, "stem", "en");
    let expected = head("en", "Doc\n")
        + "\t<h1>\n\t\tDoc\n\t</h1>\n\t<p>\n"
        + "<h1>\nPart\n</h1>\n"
        + "\t\tsee <a href=\"x.html\">here</a> now\n"
        + "\t</p>\n\t<p>\t\t\n"
        + "<hr />\n\n"
        + "\t\tlast <a href=\"\">one</a>\n"
        + "\n\t</p>\n</body>\n</html>\n";
    assert_eq!(html, expected);
}

#[test]
fn plain_text_does_not_know_markdown() {
    let content = "# Part\n---\n[a](b)\n";
    let html = convert_document(content, Format::PlainText, "stem", "en");
    let expected =
        head("en", "stem") + "\t<p>\n\t\t# Part\n\t\t---\n\t\t[a](b)\n\n\t</p>\n</body>\n</html>\n";
    assert_eq!(html, expected);
}

#[test]
fn paragraphs_are_balanced() {
    for content in ["", "a\n", "\n", "a\n\nb\n\n\nc", "T\n\n\n\n\nx\n\n", "\r\n\r\n"] {
        for format in [Format::PlainText, Format::Markdown] {
            let html = convert_document(content, format, "stem", "en");
            assert_eq!(count(&html, "<p>"), count(&html, "</p>"));
            assert_eq!(count(&html, "<p>"), 1 + count(&html, "\t</p>\n\t<p>"));
        }
    }
}

#[test]
fn markdown_heading_line() {
    assert_eq!(convert_line(Format::Markdown, "# Hello\n"), "<h1>\nHello\n</h1>\n");
    let html = convert_document("# Hello\n", Format::Markdown, "stem", "en");
    assert_eq!(count(&html, "Hello"), 1);
    assert_eq!(html, head("en", "stem") + "\t<p>\n<h1>\nHello\n</h1>\n\n\t</p>\n</body>\n</html>\n");
}

#[test]
fn markdown_heading_needs_the_whole_marker() {
    assert_eq!(convert_line(Format::Markdown, "#Hello\n"), "\t\t#Hello\n");
    assert_eq!(convert_line(Format::Markdown, " # Hello\n"), "\t\t # Hello\n");
    assert_eq!(convert_line(Format::Markdown, "# "), "<h1>\n</h1>\n");
    assert_eq!(convert_line(Format::Markdown, "# [a](b)\n"), "<h1>\n[a](b)\n</h1>\n");
}

#[test]
fn horizontal_rule_line() {
    assert_eq!(convert_line(Format::Markdown, "---\n"), "<hr />\n\n");
    assert_eq!(convert_line(Format::Markdown, "---\r\n"), "<hr />\n\n");
    let html = convert_document("---\n", Format::Markdown, "stem", "en");
    assert_eq!(html, head("en", "stem") + "\t<p>\n<hr />\n\n\n\t</p>\n</body>\n</html>\n");
}

#[test]
fn horizontal_rule_must_be_exact() {
    assert_eq!(convert_line(Format::Markdown, "---"), "\t\t---");
    assert_eq!(convert_line(Format::Markdown, "----\n"), "\t\t----\n");
    assert_eq!(convert_line(Format::Markdown, "--- \n"), "\t\t--- \n");
    assert_eq!(convert_line(Format::Markdown, " ---\n"), "\t\t ---\n");
}

#[test]
fn blank_line_breaks_the_paragraph() {
    assert_eq!(convert_line(Format::PlainText, "\n"), "\t</p>\n\t<p>\n");
    assert_eq!(convert_line(Format::PlainText, "\r\n"), "\t</p>\n\t<p>\n");
    assert_eq!(convert_line(Format::Markdown, "\n"), "\t</p>\n\t<p>\t\t\n");
    assert_eq!(convert_line(Format::Markdown, "\r\n"), "\t</p>\n\t<p>\t\t\r\n");
}

#[test]
fn line_of_spaces_is_text() {
    assert_eq!(convert_line(Format::PlainText, " \n"), "\t\t \n");
    assert_eq!(convert_line(Format::Markdown, "\t\n"), "\t\t\t\n");
}

#[test]
fn text_line_is_indented() {
    assert_eq!(convert_line(Format::PlainText, "some [a](b)\n"), "\t\tsome [a](b)\n");
    assert_eq!(
        convert_line(Format::Markdown, "some [a](b)\n"),
        "\t\tsome <a href=\"b\">a</a>\n"
    );
}

#[test]
fn classifies_lines() {
    assert!(matches!(classify_line(Format::PlainText, "\n"), LineEvent::Blank));
    assert!(matches!(classify_line(Format::Markdown, "\r\n"), LineEvent::Blank));
    assert!(matches!(classify_line(Format::Markdown, "---\n"), LineEvent::HorizontalRule));
    assert!(matches!(classify_line(Format::Markdown, "---\r\n"), LineEvent::HorizontalRule));
    assert!(
        matches!(classify_line(Format::Markdown, "# Hello\n"), LineEvent::Heading(text) if text == "Hello\n")
    );
    assert!(
        matches!(classify_line(Format::Markdown, "Hello\n"), LineEvent::Text(text) if text == "Hello\n")
    );
    assert!(
        matches!(classify_line(Format::PlainText, "# Hello\n"), LineEvent::Text(text) if text == "# Hello\n")
    );
    assert!(
        matches!(classify_line(Format::PlainText, "---\n"), LineEvent::Text(text) if text == "---\n")
    );
}

#[test]
fn line_by_line_conversion_gives_the_same_document() {
    let mut converter = Converter::begin(Format::Markdown, Some("Doc\n"), "stem", "en");
    assert_eq!(converter.paragraph, ParagraphState::Open);
    for line in ["# Part\n", "\n", "see [a](b)\n", "---\n", "end"] {
        converter.push_line(line);
        assert_eq!(converter.paragraph, ParagraphState::Open);
    }
    let html = converter.finish();
    let whole = convert_document(
        "Doc\n\n\n# Part\n\nsee [a](b)\n---\nend",
        Format::Markdown,
        "stem",
        "en",
    );
    assert_eq!(html, whole);
}

#[test]
fn converter_without_title_uses_the_base_name() {
    let converter = Converter::begin(Format::PlainText, None, "stem", "de");
    assert_eq!(converter.format, Format::PlainText);
    assert_eq!(converter.html, head("de", "stem") + "\t<p>\n");
    assert_eq!(converter.finish(), head("de", "stem") + "\t<p>\n\n\t</p>\n</body>\n</html>\n");
}

#[test]
fn tag_spelled_in_the_source_stands_in_the_document() {
    let html = convert_document("<p>\n", Format::PlainText, "stem", "en");
    assert_eq!(count(&html, "<p>"), 2);
    assert_eq!(count(&html, "</p>"), 1);
}

#[test]
fn balanced_tags_in_the_source_keep_the_balance() {
    let html = convert_document("<p>a</p>\n\n[x</p>](<p>)\n", Format::Markdown, "stem", "en");
    assert_eq!(count(&html, "<p>"), 4);
    assert_eq!(count(&html, "</p>"), 4);
}
