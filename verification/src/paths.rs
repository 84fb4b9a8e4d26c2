//! File paths as text, taken apart by `std::path` as it reads paths on the
//! platform that the library is built for.

use vstd::prelude::*;

verus! {

/// The result of `Path::extension` on a path: the part of the file name after
/// its last dot, if the path has a file name with such a part.
pub uninterp spec fn extension_of(path: Seq<char>) -> Option<Seq<char>>;

/// The result of `Path::file_stem` on a path: the file name without its
/// extension, if the path has a file name.
pub uninterp spec fn file_stem_of(path: Seq<char>) -> Option<Seq<char>>;

/// The result of `Path::with_file_name` on a path and a name: the path with
/// its file name replaced.
pub uninterp spec fn with_file_name(path: Seq<char>, name: Seq<char>) -> Seq<char>;

/// Calls `Path::extension`. Trusted: the result is the named value
/// [`extension_of`] of the path; how std splits a path is not restated.
#[verifier::external_body]
pub(crate) fn path_extension(path: &str) -> (r: Option<String>)
    ensures
        match r {
            Some(e) => extension_of(path@) == Some(e@),
            None => extension_of(path@).is_none(),
        },
{
    match std::path::Path::new(path).extension() {
        Some(extension) => Some(extension.to_string_lossy().into_owned()),
        None => None,
    }
}

/// Calls `Path::file_stem`. Trusted: the result is the named value
/// [`file_stem_of`] of the path.
#[verifier::external_body]
pub(crate) fn path_file_stem(path: &str) -> (r: Option<String>)
    ensures
        match r {
            Some(e) => file_stem_of(path@) == Some(e@),
            None => file_stem_of(path@).is_none(),
        },
{
    match std::path::Path::new(path).file_stem() {
        Some(stem) => Some(stem.to_string_lossy().into_owned()),
        None => None,
    }
}

/// Calls `Path::with_file_name`. Trusted: the result is the named value
/// [`with_file_name`] of the path and the name.
#[verifier::external_body]
pub(crate) fn path_with_file_name(path: &str, name: &str) -> (r: String)
    ensures
        r@ == with_file_name(path@, name@),
{
    std::path::Path::new(path).with_file_name(name).to_string_lossy().into_owned()
}

} // verus!
