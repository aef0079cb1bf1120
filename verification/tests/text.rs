use txt2html::event::{is_rule_line, starts_heading};
use txt2html::lines::{find_line_end, is_blank_range};
use txt2html::text::{append_range, find_from, string_from_chars, to_chars};

#[test]
fn to_chars_and_back() {
    let chars = to_chars("a€\n");
    assert_eq!(chars, vec!['a', '€', '\n']);
    assert_eq!(string_from_chars(&chars), "a€\n");
    assert_eq!(to_chars(""), Vec::<char>::new());
    assert_eq!(string_from_chars(&[]), "");
}

#[test]
fn find_from_gives_the_first_index_or_the_length() {
    let chars = to_chars("a.b.c");
    assert_eq!(find_from(&chars, '.', 0), 1);
    assert_eq!(find_from(&chars, '.', 1), 1);
    assert_eq!(find_from(&chars, '.', 2), 3);
    assert_eq!(find_from(&chars, '.', 4), 5);
    assert_eq!(find_from(&chars, '.', 5), 5);
    assert_eq!(find_from(&chars, 'x', 0), 5);
}

#[test]
fn append_range_appends_the_part() {
    let chars = to_chars("hello");
    let mut out = String::from(">");
    append_range(&mut out, &chars, 1, 4);
    assert_eq!(out, ">ell");
    append_range(&mut out, &chars, 2, 2);
    assert_eq!(out, ">ell");
    append_range(&mut out, &chars, 0, 5);
    assert_eq!(out, ">ellhello");
}

#[test]
fn line_ends_behind_its_terminator() {
    let doc = to_chars("ab\n\ncd");
    assert_eq!(find_line_end(&doc, 0), 3);
    assert_eq!(find_line_end(&doc, 1), 3);
    assert_eq!(find_line_end(&doc, 3), 4);
    assert_eq!(find_line_end(&doc, 4), 6);
    assert_eq!(find_line_end(&doc, 6), 6);
}

#[test]
fn blank_ranges() {
    let doc = to_chars("a\n\r\n\n\r");
    assert!(!is_blank_range(&doc, 0, 2));
    assert!(is_blank_range(&doc, 1, 2));
    assert!(is_blank_range(&doc, 2, 4));
    assert!(is_blank_range(&doc, 4, 5));
    assert!(!is_blank_range(&doc, 5, 6));
    assert!(!is_blank_range(&doc, 3, 5));
    assert!(!is_blank_range(&doc, 1, 4));
    assert!(!is_blank_range(&doc, 2, 2));
}

#[test]
fn heading_marker_and_rule() {
    assert!(starts_heading(&to_chars("# x")));
    assert!(starts_heading(&to_chars("# ")));
    assert!(!starts_heading(&to_chars("#")));
    assert!(!starts_heading(&to_chars("## x")));
    assert!(is_rule_line(&to_chars("---\n")));
    assert!(is_rule_line(&to_chars("---\r\n")));
    assert!(!is_rule_line(&to_chars("---")));
    assert!(!is_rule_line(&to_chars("--\n")));
    assert!(!is_rule_line(&to_chars("---\r")));
    assert!(!is_rule_line(&to_chars("---\n\n")));
}
