use txt2html::convert::convert_document;
use txt2html::format::Format;
use txt2html::job::{
    convert_source, output_file_name, plan_conversion, ConversionPlan, InputKind, Report,
};

#[test]
fn missing_input_touches_nothing() {
    let expected = ConversionPlan {
        prepare_output: false,
        convert_directory: false,
        convert_file: false,
        report: Report::InvalidPath,
    };
    assert_eq!(plan_conversion(InputKind::Missing, false), expected);
    assert_eq!(plan_conversion(InputKind::Missing, true), expected);
}

#[test]
fn supported_file_is_converted() {
    let expected = ConversionPlan {
        prepare_output: true,
        convert_directory: false,
        convert_file: true,
        report: Report::Success,
    };
    assert_eq!(plan_conversion(InputKind::File, true), expected);
}

#[test]
fn unsupported_file_is_reported() {
    let expected = ConversionPlan {
        prepare_output: true,
        convert_directory: false,
        convert_file: false,
        report: Report::UnsupportedFormat,
    };
    assert_eq!(plan_conversion(InputKind::File, false), expected);
    assert_eq!(plan_conversion(InputKind::Other, false), expected);
    assert_eq!(plan_conversion(InputKind::Other, true), expected);
}

#[test]
fn directory_has_its_files_converted() {
    let expected = ConversionPlan {
        prepare_output: true,
        convert_directory: true,
        convert_file: false,
        report: Report::UnsupportedFormat,
    };
    assert_eq!(plan_conversion(InputKind::Directory, false), expected);
    assert_eq!(plan_conversion(InputKind::Directory, true), expected);
}

#[test]
fn output_file_is_named_after_the_source() {
    assert_eq!(output_file_name("sample"), "sample.html");
    assert_eq!(output_file_name("my.notes"), "my.notes.html");
    assert_eq!(output_file_name(""), ".html");
}

#[test]
fn source_file_becomes_a_named_document() {
    let converted = convert_source("docs/sample.txt", "test\n", "en").unwrap();
    assert_eq!(converted.file_name, "sample.html");
    assert_eq!(converted.html, convert_document("test\n", Format::PlainText, "sample", "en"));
    assert!(converted.html.contains("<title>\n\t\tsample\n\t</title>"));
    assert!(converted.html.ends_with("\t<p>\n\t\ttest\n\n\t</p>\n</body>\n</html>\n"));
}

#[test]
fn markdown_source_is_converted_as_markdown() {
    let converted = convert_source("a.b/page.v2.md", "# Top\n", "en").unwrap();
    assert_eq!(converted.file_name, "page.v2.html");
    assert_eq!(converted.html, convert_document("# Top\n", Format::Markdown, "page.v2", "en"));
    assert!(converted.html.contains("<h1>\nTop\n</h1>\n"));
}

#[test]
fn unsupported_source_gives_nothing() {
    assert!(convert_source("sample.exe", "test\n", "en").is_none());
    assert!(convert_source("sample", "test\n", "en").is_none());
    assert!(convert_source(".md", "test\n", "en").is_none());
    assert!(convert_source("", "test\n", "en").is_none());
}
