//! Pieces of a path as `std::path::Path` splits it.
use vstd::prelude::*;

verus! {

/// The text of an optional string.
pub open spec fn opt_string_text(o: Option<String>) -> Option<Seq<char>> {
    match o {
        Some(s) => Some(s@),
        None => None,
    }
}

/// The final component of a path (`Path::file_name`).
pub uninterp spec fn file_name_of(p: Seq<char>) -> Option<Seq<char>>;

/// The path without its final component (`Path::parent`).
pub uninterp spec fn parent_of(p: Seq<char>) -> Option<Seq<char>>;

/// The final component without its extension (`Path::file_stem`).
pub uninterp spec fn file_stem_of(p: Seq<char>) -> Option<Seq<char>>;

/// The extension of the final component (`Path::extension`).
pub uninterp spec fn extension_of(p: Seq<char>) -> Option<Seq<char>>;

/// Whether two paths are equal as `std::path::Path` compares them: by their
/// components, so that `a/./b`, `a//b`, `a/b/` and `a/b` are one path.
pub uninterp spec fn same_path(a: Seq<char>, b: Seq<char>) -> bool;

/// `a` and `b` name one file: the same text, or paths that compare equal.
pub open spec fn same_file(a: Seq<char>, b: Seq<char>) -> bool {
    a == b || same_path(a, b)
}

/// Compares two paths with `Path`'s `==`; the result is named. Equal texts
/// are equal paths.
#[verifier::external_body]
pub(crate) fn paths_equal(a: &str, b: &str) -> (r: bool)
    ensures
        r == same_path(a@, b@),
        a@ == b@ ==> r,
{
    std::path::Path::new(a) == std::path::Path::new(b)
}

/// Calls `std::path::Path::file_name`; the result is named, not described.
#[verifier::external_body]
pub(crate) fn path_file_name(p: &str) -> (r: Option<String>)
    ensures
        opt_string_text(r) == file_name_of(p@),
{
    std::path::Path::new(p).file_name().map(|n| n.to_string_lossy().to_string())
}

/// Calls `std::path::Path::parent`; the result is named, not described.
#[verifier::external_body]
pub(crate) fn path_parent(p: &str) -> (r: Option<String>)
    ensures
        opt_string_text(r) == parent_of(p@),
{
    std::path::Path::new(p).parent().map(|q| q.to_string_lossy().to_string())
}

/// Calls `std::path::Path::file_stem`; the result is named, not described.
#[verifier::external_body]
pub(crate) fn path_file_stem(p: &str) -> (r: Option<String>)
    ensures
        opt_string_text(r) == file_stem_of(p@),
{
    std::path::Path::new(p).file_stem().map(|q| q.to_string_lossy().to_string())
}

/// Calls `std::path::Path::extension`; the result is named, not described.
#[verifier::external_body]
pub(crate) fn path_extension(p: &str) -> (r: Option<String>)
    ensures
        opt_string_text(r) == extension_of(p@),
{
    std::path::Path::new(p).extension().map(|q| q.to_string_lossy().to_string())
}

} // verus!
