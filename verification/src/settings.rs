//! Run settings: what a configuration file may hold, and the defaults that
//! stand in for what it leaves out.

use vstd::prelude::*;
use vstd::string::*;
use crate::path::{extension_of, path_extension};
use crate::text::same_text;

verus! {

/// The output directory of a run that names none. It is emptied before each
/// run.
pub const DEFAULT_OUTPUT_DIR: &'static str = "./dist";

/// The language tag of a run that names none.
pub const DEFAULT_LANG: &'static str = "en-CA";

/// The input path of a configuration that names none.
pub const DEFAULT_INPUT: &'static str = " ";

/// The entries of a configuration file. Each may be absent.
#[derive(Clone, Debug)]
pub struct Config {
    /// The file or directory to convert.
    pub input: Option<String>,
    /// The directory that receives the HTML files.
    pub output: Option<String>,
    /// The language tag of the generated documents.
    pub lang: Option<String>,
}

/// The settings of one run, with nothing left open.
#[derive(Clone, Debug)]
pub struct Settings {
    /// The file or directory to convert.
    pub input: String,
    /// The directory that receives the HTML files.
    pub output: String,
    /// The language tag of the generated documents.
    pub lang: String,
}

/// The text of an entry, or `default` where the entry is absent.
pub open spec fn entry_or(entry: Option<String>, default: Seq<char>) -> Seq<char> {
    match entry {
        Some(text) => text@,
        None => default,
    }
}

/// The entry's text, or `default` where the entry is absent.
pub fn value_or(entry: Option<String>, default: &str) -> (value: String)
    ensures
        value@ == entry_or(entry, default@),
{
    match entry {
        Some(text) => text,
        None => default.to_owned(),
    }
}

impl Config {
    /// The settings that this configuration stands for: each entry that is
    /// present, and the default for each that is absent.
    pub fn resolve(self) -> (settings: Settings)
        ensures
            settings.input@ == entry_or(self.input, DEFAULT_INPUT@),
            settings.output@ == entry_or(self.output, DEFAULT_OUTPUT_DIR@),
            settings.lang@ == entry_or(self.lang, DEFAULT_LANG@),
    {
        Settings {
            input: value_or(self.input, DEFAULT_INPUT),
            output: value_or(self.output, DEFAULT_OUTPUT_DIR),
            lang: value_or(self.lang, DEFAULT_LANG),
        }
    }
}

/// Whether `output_dir` is the default output directory, the one that a run
/// empties before it writes.
pub fn is_default_output_dir(output_dir: &str) -> (default: bool)
    ensures
        default == (output_dir@ == DEFAULT_OUTPUT_DIR@),
{
    same_text(output_dir, DEFAULT_OUTPUT_DIR)
}

/// Whether the file that `path` names can be read as a configuration: its
/// extension is `json`.
pub fn config_file_path_valid(path: &str) -> (valid: bool)
    ensures
        valid == (path_extension(path@) == Some("json"@)),
{
    match extension_of(path) {
        Some(extension) => same_text(extension.as_str(), "json"),
        None => false,
    }
}

} // verus!
