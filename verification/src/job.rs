//! One conversion job: what a run does with its input path, and what one
//! source file becomes.

use vstd::prelude::*;
use vstd::string::*;
use crate::convert::{convert_document, document_html};
use crate::format::{format_of_path, Format};
use crate::path::{file_stem_of, path_file_stem};

verus! {

/// What the input path of a run names.
#[derive(Clone, Copy, Debug, PartialEq, Eq, Structural)]
pub enum InputKind {
    /// Nothing exists at the path.
    Missing,
    /// A directory.
    Directory,
    /// A regular file.
    File,
    /// Something that is neither a directory nor a regular file.
    Other,
}

/// What a run tells its user when it ends.
#[derive(Clone, Copy, Debug, PartialEq, Eq, Structural)]
pub enum Report {
    /// Nothing exists at the input path.
    InvalidPath,
    /// The input is not a `.txt` or `.md` file.
    UnsupportedFormat,
    /// The input file was converted.
    Success,
}

/// The steps of one run.
#[derive(Clone, Copy, Debug, PartialEq, Eq, Structural)]
pub struct ConversionPlan {
    /// Create the output directory, emptying it first if it is the default.
    pub prepare_output: bool,
    /// Convert each file of the input directory.
    pub convert_directory: bool,
    /// Convert the input file.
    pub convert_file: bool,
    /// What to report at the end.
    pub report: Report,
}

/// The plan for an input of the given kind. `supported` says whether the
/// path has a supported extension; it counts for a regular file only.
///
/// A missing input touches nothing. Any other input has the output
/// directory prepared. A directory has its files converted; a supported
/// regular file is converted and reported as a success; every run on
/// something else than a supported regular file, a directory too, ends with
/// the notice on unsupported input.
pub open spec fn plan_for(kind: InputKind, supported: bool) -> ConversionPlan {
    match kind {
        InputKind::Missing => ConversionPlan {
            prepare_output: false,
            convert_directory: false,
            convert_file: false,
            report: Report::InvalidPath,
        },
        InputKind::Directory => ConversionPlan {
            prepare_output: true,
            convert_directory: true,
            convert_file: false,
            report: Report::UnsupportedFormat,
        },
        InputKind::File => ConversionPlan {
            prepare_output: true,
            convert_directory: false,
            convert_file: supported,
            report: if supported {
                Report::Success
            } else {
                Report::UnsupportedFormat
            },
        },
        InputKind::Other => ConversionPlan {
            prepare_output: true,
            convert_directory: false,
            convert_file: false,
            report: Report::UnsupportedFormat,
        },
    }
}

/// Plans one run from what its input path names.
pub fn plan_conversion(kind: InputKind, supported: bool) -> (plan: ConversionPlan)
    ensures
        plan == plan_for(kind, supported),
{
    let exists = !matches!(kind, InputKind::Missing);
    let directory = matches!(kind, InputKind::Directory);
    let file = matches!(kind, InputKind::File) && supported;
    ConversionPlan {
        prepare_output: exists,
        convert_directory: directory,
        convert_file: file,
        report: if !exists {
            Report::InvalidPath
        } else if file {
            Report::Success
        } else {
            Report::UnsupportedFormat
        },
    }
}

/// The name of the HTML file for a source file with the given base name.
pub open spec fn output_name(file_stem: Seq<char>) -> Seq<char> {
    file_stem + ".html"@
}

/// The name of the HTML file for a source file with the given base name.
pub fn output_file_name(file_stem: &str) -> (name: String)
    ensures
        name@ == output_name(file_stem@),
{
    let mut name = file_stem.to_owned();
    name.append(".html");
    name
}

/// What one source file becomes.
#[derive(Clone, Debug)]
pub struct Conversion {
    /// The name of the HTML file, without a directory.
    pub file_name: String,
    /// The HTML document.
    pub html: String,
}

/// Converts the source file at `path`, whose text is `content`. The format
/// comes from the path's extension, the fallback title and the output file's
/// name from its base name. A path with another extension, or with none,
/// gives nothing.
pub fn convert_source(path: &str, content: &str, lang: &str) -> (converted: Option<Conversion>)
    ensures
        converted is Some <==> format_of_path(path@) is Some && path_file_stem(path@) is Some,
        converted matches Some(done) ==> {
            let stem = path_file_stem(path@)->0;
            &&& done.file_name@ == output_name(stem)
            &&& done.html@ == document_html(content@, format_of_path(path@)->0, stem, lang@)
        },
{
    let format = match Format::from_path(path) {
        Some(format) => format,
        None => {
            return None;
        },
    };
    let stem = match file_stem_of(path) {
        Some(stem) => stem,
        None => {
            return None;
        },
    };
    let html = convert_document(content, format, stem.as_str(), lang);
    Some(Conversion { file_name: output_file_name(stem.as_str()), html })
}

} // verus!
