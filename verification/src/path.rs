//! The two parts of a file path that the converter reads: the extension and
//! the base name. The standard library takes a path apart; what it returns
//! is named here and not computed.

use vstd::prelude::*;
use vstd::string::*;

verus! {

/// The extension of the file that `path` names, as
/// `std::path::Path::extension` gives it: what follows the last `.` of the
/// file name, if the name has one that is not its first character.
pub uninterp spec fn path_extension(path: Seq<char>) -> Option<Seq<char>>;

/// The base name of the file that `path` names, as
/// `std::path::Path::file_stem` gives it: the file name without its
/// extension.
pub uninterp spec fn path_file_stem(path: Seq<char>) -> Option<Seq<char>>;

/// `std::path::Path::extension` on the path that `path` spells. The result
/// is the extension as text; nothing but its name is claimed of it.
#[verifier::external_body]
pub(crate) fn extension_of(path: &str) -> (extension: Option<String>)
    ensures
        extension is Some <==> path_extension(path@) is Some,
        extension matches Some(found) ==> path_extension(path@) == Some(found@),
{
    match std::path::Path::new(path).extension() {
        Some(found) => Some(found.to_string_lossy().into_owned()),
        None => None,
    }
}

/// `std::path::Path::file_stem` on the path that `path` spells. The result
/// is the base name as text; nothing but its name is claimed of it.
#[verifier::external_body]
pub(crate) fn file_stem_of(path: &str) -> (stem: Option<String>)
    ensures
        stem is Some <==> path_file_stem(path@) is Some,
        stem matches Some(found) ==> path_file_stem(path@) == Some(found@),
{
    match std::path::Path::new(path).file_stem() {
        Some(found) => Some(found.to_string_lossy().into_owned()),
        None => None,
    }
}

} // verus!
