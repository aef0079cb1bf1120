//! The two source formats, and how a file's extension selects one.

use vstd::prelude::*;
use vstd::string::*;
use crate::path::{extension_of, path_extension};
use crate::text::same_text;

verus! {

/// The kind of a source document.
#[derive(Clone, Copy, Debug, PartialEq, Eq, Structural)]
pub enum Format {
    /// Plain text: blank lines separate paragraphs.
    PlainText,
    /// Lightweight markdown: headings, horizontal rules and links as well.
    Markdown,
}

/// The format that a file extension stands for: `txt` is plain text, `md` is
/// markdown, and no other extension is supported.
pub open spec fn format_for(extension: Seq<char>) -> Option<Format> {
    if extension == "txt"@ {
        Some(Format::PlainText)
    } else if extension == "md"@ {
        Some(Format::Markdown)
    } else {
        None
    }
}

/// The format of the file that `path` names, by its extension.
pub open spec fn format_of_path(path: Seq<char>) -> Option<Format> {
    match path_extension(path) {
        Some(extension) => format_for(extension),
        None => None,
    }
}

impl Format {
    /// The format that `extension` stands for, if it is supported.
    pub fn from_extension(extension: &str) -> (format: Option<Format>)
        ensures
            format == format_for(extension@),
    {
        if same_text(extension, "txt") {
            Some(Format::PlainText)
        } else if same_text(extension, "md") {
            Some(Format::Markdown)
        } else {
            None
        }
    }

    /// The format of the file that `path` names, if its extension is
    /// supported.
    pub fn from_path(path: &str) -> (format: Option<Format>)
        ensures
            format == format_of_path(path@),
    {
        match extension_of(path) {
            Some(extension) => Format::from_extension(extension.as_str()),
            None => None,
        }
    }
}

/// Whether the file that `path` names can be converted: its extension is
/// `txt` or `md`.
pub fn conversion_file_path_valid(path: &str) -> (valid: bool)
    ensures
        valid == format_of_path(path@) is Some,
{
    Format::from_path(path).is_some()
}

} // verus!
