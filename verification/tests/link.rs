use txt2html::link::{find_link, process_link_markdown, LinkSpan};
use txt2html::text::to_chars;

#[test]
fn processes_one_markdown_link() {
    let input_line = String::from("[This is text for a link](www.example.com)");
    let expected_output = "<a href=\"www.example.com\">This is text for a link</a>";
    assert_eq!(process_link_markdown(&input_line), expected_output);
}

#[test]
fn retains_text_before_link() {
    let input_line = String::from("Lorem Ipsum[This is text for a link](www.example.com)");
    let expected_output = "Lorem Ipsum<a href=\"www.example.com\">This is text for a link</a>";
    assert_eq!(process_link_markdown(&input_line), expected_output);
}

#[test]
fn retains_text_after_link() {
    let input_line = String::from("[This is text for a link](www.example.com)Lorem Ipsum");
    let expected_output = "<a href=\"www.example.com\">This is text for a link</a>Lorem Ipsum";
    assert_eq!(process_link_markdown(&input_line), expected_output);
}

#[test]
fn retains_text_around_link() {
    let input_line = String::from("Lorem Ipsum[This is text for a link](www.example.com)Dolor Sit");
    let expected_output =
        "Lorem Ipsum<a href=\"www.example.com\">This is text for a link</a>Dolor Sit";
    assert_eq!(process_link_markdown(&input_line), expected_output);
}

#[test]
fn does_not_process_invalid_link_markdown() {
    let input_line = String::from("[Invalid markdown[(www.example.com)");
    let expected_output = "[Invalid markdown[(www.example.com)";
    assert_eq!(process_link_markdown(&input_line), expected_output);
}

#[test]
fn image_link_test() {
    let input_line = String::from("[First][Second](www.example.com)");
    let expected_output = "<a href=\"www.example.com\">First</a>";
    assert_eq!(process_link_markdown(&input_line), expected_output);
}

#[test]
fn process_link_markdown_returns_empty_string_arg() {
    assert_eq!(process_link_markdown(&String::from("")), "");
}

#[test]
fn link_round_trip_is_exact() {
    assert_eq!(process_link_markdown(&String::from("[TEXT](URL)")), "<a href=\"URL\">TEXT</a>");
    assert_eq!(
        process_link_markdown(&String::from("pre[TEXT](URL)post")),
        "pre<a href=\"URL\">TEXT</a>post"
    );
}

#[test]
fn unmatched_bracket_is_inert() {
    assert_eq!(process_link_markdown(&String::from("[a[(b)")), "[a[(b)");
}

#[test]
fn line_without_bracket_is_inert() {
    assert_eq!(process_link_markdown(&String::from("plain (text) ] here\n")), "plain (text) ] here\n");
}

#[test]
fn closing_bracket_before_opening_one_does_not_count() {
    assert_eq!(process_link_markdown(&String::from("x]y[a](b)")), "x]y<a href=\"b\">a</a>");
    assert_eq!(process_link_markdown(&String::from("x]y[a")), "x]y[a");
}

#[test]
fn link_without_url_has_empty_href() {
    assert_eq!(process_link_markdown(&String::from("[a]b")), "<a href=\"\">a</a>b");
    assert_eq!(process_link_markdown(&String::from("see [a]")), "see <a href=\"\">a</a>");
}

#[test]
fn unclosed_parenthesis_gives_empty_href_and_stays_in_the_text() {
    assert_eq!(process_link_markdown(&String::from("[a](b")), "<a href=\"\">a</a>(b");
}

#[test]
fn closing_parenthesis_before_the_opening_one_does_not_count() {
    assert_eq!(process_link_markdown(&String::from("[a])b(c")), "<a href=\"\">a</a>)b(c");
    assert_eq!(process_link_markdown(&String::from("[a])b(c)d")), "<a href=\"c\">a</a>d");
}

#[test]
fn text_between_bracket_and_parenthesis_is_dropped() {
    assert_eq!(process_link_markdown(&String::from("[a] and (b) c")), "<a href=\"b\">a</a> c");
}

#[test]
fn only_the_first_link_is_rewritten() {
    assert_eq!(
        process_link_markdown(&String::from("[a](b) [c](d)\n")),
        "<a href=\"b\">a</a> [c](d)\n"
    );
}

#[test]
fn empty_text_and_empty_url() {
    assert_eq!(process_link_markdown(&String::from("[]()")), "<a href=\"\"></a>");
}

#[test]
fn link_in_text_beyond_ascii() {
    assert_eq!(
        process_link_markdown(&String::from("é[ü](ö)ß")),
        "é<a href=\"ö\">ü</a>ß"
    );
}

#[test]
fn link_text_that_spells_a_placeholder_is_kept() {
    assert_eq!(
        process_link_markdown(&String::from("[URL and TEXT](x)")),
        "<a href=\"x\">URL and TEXT</a>"
    );
}

#[test]
fn find_link_reports_the_span() {
    let line = to_chars("ab[cd](ef)g");
    let expected = LinkSpan { text_start: 3, text_end: 5, url_start: 7, url_end: 9, tail_start: 10 };
    assert_eq!(find_link(&line), Some(expected));
}

#[test]
fn find_link_without_url_reports_an_empty_url_range() {
    let line = to_chars("[cd] (ef");
    let expected = LinkSpan { text_start: 1, text_end: 3, url_start: 3, url_end: 3, tail_start: 4 };
    assert_eq!(find_link(&line), Some(expected));
}

#[test]
fn find_link_finds_none_without_closing_bracket() {
    assert_eq!(find_link(&to_chars("a [b (c)")), None);
    assert_eq!(find_link(&to_chars("")), None);
}
